//! Taking up a lease again after a restart.

use crate::addr::{ones, Ipv4Addr};
use crate::dora::{decline_of, judge_probe, Event, EventView, Probe, Verdict};
use crate::lease::{
    law_lease_reads_back, lease_lines, lease_value, with_line_feeds, Lease, LeaseView,
};
use crate::reply::{
    granted, law_acknowledged_lease, lease_from, DhcpReply, DhcpReplyView, ReplyView,
};
use crate::request::{
    broadcast_header, decline_options, init_reboot_options, init_reboot_packet, name_of, packet,
};
use crate::text::{characters, is_space, same_text, text_view};
use vstd::prelude::*;
use vstd::string::*;

verus! {

/// Why a saved lease is not asked for again.
#[derive(Clone, Copy, Debug, PartialEq, Eq, Structural)]
pub enum SavedError {
    /// It is for another interface.
    IfaceMismatch,
    /// It has run out.
    Expired,
}

/// Whether a lease for `saved_iface`, which was obtained at `obtained` for `lease_secs` seconds,
/// can be asked for again on `iface` at the time `now`. The end of the lease must be a time that
/// 64 bits can hold.
pub fn check_saved(
    saved_iface: &str,
    iface: &str,
    obtained: u64,
    lease_secs: u32,
    now: u64,
) -> (r: Result<(), SavedError>)
    requires
        saved_iface@ == iface@ ==> obtained + lease_secs <= u64::MAX,
    ensures
        r == if saved_iface@ != iface@ {
            Err::<(), SavedError>(SavedError::IfaceMismatch)
        } else if obtained + lease_secs <= now {
            Err(SavedError::Expired)
        } else {
            Ok(())
        },
{
    if !same_text(&characters(saved_iface), iface) {
        return Err(SavedError::IfaceMismatch);
    }
    if obtained + lease_secs as u64 <= now {
        return Err(SavedError::Expired);
    }
    Ok(())
}

/// What the client is waiting for.
pub enum RebootPhase {
    /// A transaction id.
    Ready,
    /// An acknowledgement.
    Asking { xid: u32 },
    /// The probe for the address of `lease`.
    Probing { xid: u32, lease: Lease },
    /// Nothing.
    Over,
}

/// What a [`RebootPhase`] stands for.
#[verifier::ext_equal]
pub ghost enum RebootPhaseView {
    Ready,
    Asking { xid: u32 },
    Probing { xid: u32, lease: LeaseView },
    Over,
}

impl View for RebootPhase {
    type V = RebootPhaseView;

    open spec fn view(&self) -> RebootPhaseView {
        match self {
            RebootPhase::Ready => RebootPhaseView::Ready,
            RebootPhase::Asking { xid } => RebootPhaseView::Asking { xid: *xid },
            RebootPhase::Probing { xid, lease } => RebootPhaseView::Probing {
                xid: *xid,
                lease: lease@,
            },
            RebootPhase::Over => RebootPhaseView::Over,
        }
    }
}

/// The client while it asks for the lease `saved` again.
pub struct Reboot {
    pub chaddr: Vec<u8>,
    pub hostname: Option<String>,
    pub saved: Lease,
    pub phase: RebootPhase,
}

/// What a [`Reboot`] stands for.
#[verifier::ext_equal]
pub ghost struct RebootView {
    pub chaddr: Seq<u8>,
    pub hostname: Option<Seq<char>>,
    pub saved: LeaseView,
    pub phase: RebootPhaseView,
}

impl View for Reboot {
    type V = RebootView;

    open spec fn view(&self) -> RebootView {
        RebootView {
            chaddr: self.chaddr@,
            hostname: text_view(self.hostname),
            saved: self.saved@,
            phase: self.phase@,
        }
    }
}

/// Why the lease is not taken up again.
#[derive(Clone, Copy, Debug, PartialEq, Eq, Structural)]
pub enum RebootError {
    /// The server refused.
    Nak,
    /// The answer was neither an acknowledgement nor a refusal.
    Unexpected,
    /// No answer came.
    NoAnswer,
}

/// What to do next.
pub enum RebootAction {
    /// Send the bytes of a request to all, and wait for the answer with the id.
    Request(u32, Vec<u8>),
    /// Ask the network who has the address.
    Probe(Ipv4Addr),
    /// Use the lease.
    Bind(Lease),
    /// Send the bytes of a decline for the address to all, and do without the lease.
    Decline(Ipv4Addr, Vec<u8>),
    /// Do without the lease.
    Fail(RebootError),
    /// Nothing: the event is none that was awaited.
    Ignore,
}

/// What a [`RebootAction`] stands for.
#[verifier::ext_equal]
pub ghost enum RebootActionView {
    Request(u32, Seq<u8>),
    Probe(Ipv4Addr),
    Bind(LeaseView),
    Decline(Ipv4Addr, Seq<u8>),
    Fail(RebootError),
    Ignore,
}

impl View for RebootAction {
    type V = RebootActionView;

    open spec fn view(&self) -> RebootActionView {
        match self {
            RebootAction::Request(xid, bytes) => RebootActionView::Request(*xid, bytes@),
            RebootAction::Probe(ip) => RebootActionView::Probe(*ip),
            RebootAction::Bind(lease) => RebootActionView::Bind(lease@),
            RebootAction::Decline(ip, bytes) => RebootActionView::Decline(*ip, bytes@),
            RebootAction::Fail(why) => RebootActionView::Fail(*why),
            RebootAction::Ignore => RebootActionView::Ignore,
        }
    }
}

/// The client after an event, and what it does about it.
pub open spec fn reboot_next(s: RebootView, event: EventView) -> (RebootView, RebootActionView) {
    let over = RebootView { phase: RebootPhaseView::Over, ..s };
    match (s.phase, event) {
        (RebootPhaseView::Ready, EventView::Id(xid)) => (
            RebootView { phase: RebootPhaseView::Asking { xid }, ..s },
            RebootActionView::Request(
                xid,
                packet(
                    broadcast_header(xid, s.chaddr),
                    init_reboot_options(s.chaddr, s.saved.ip, s.hostname),
                ),
            ),
        ),
        (RebootPhaseView::Asking { xid }, EventView::Answer(DhcpReplyView::Ack(m))) => {
            let lease = granted(m, Some(s.saved.ip), s.saved.server, s.saved.lease_secs);
            (
                RebootView { phase: RebootPhaseView::Probing { xid, lease }, ..s },
                RebootActionView::Probe(lease.ip),
            )
        },
        (RebootPhaseView::Asking { xid }, EventView::Answer(DhcpReplyView::Nak)) => (
            over,
            RebootActionView::Fail(RebootError::Nak),
        ),
        (RebootPhaseView::Asking { xid }, EventView::Answer(DhcpReplyView::Offer(m))) => (
            over,
            RebootActionView::Fail(RebootError::Unexpected),
        ),
        (RebootPhaseView::Asking { xid }, EventView::NoAnswer) => (
            over,
            RebootActionView::Fail(RebootError::NoAnswer),
        ),
        (RebootPhaseView::Probing { xid, lease }, EventView::Probed(Probe::Conflict)) => (
            over,
            RebootActionView::Decline(lease.ip, decline_of(xid, s.chaddr, lease)),
        ),
        (RebootPhaseView::Probing { xid, lease }, EventView::Probed(_)) => (
            over,
            RebootActionView::Bind(lease),
        ),
        _ => (s, RebootActionView::Ignore),
    }
}

impl Reboot {
    /// The client before it asks.
    pub fn new(chaddr: Vec<u8>, hostname: Option<String>, saved: Lease) -> (r: Reboot)
        ensures
            r@ == (RebootView {
                chaddr: chaddr@,
                hostname: text_view(hostname),
                saved: saved@,
                phase: RebootPhaseView::Ready,
            }),
    {
        Reboot { chaddr, hostname, saved, phase: RebootPhase::Ready }
    }

    /// The client after an event, and what it does about it.
    pub fn step(self, event: Event) -> (r: (Reboot, RebootAction))
        ensures
            (r.0@, r.1@) == reboot_next(self@, event@),
    {
        let Reboot { chaddr, hostname, saved, phase } = self;
        let over = Reboot { chaddr, hostname, saved, phase: RebootPhase::Over };
        match (phase, event) {
            (RebootPhase::Ready, Event::Id(xid)) => {
                let name: Option<&str> = match &over.hostname {
                    Some(h) => Some(h.as_str()),
                    None => None,
                };
                proof {
                    assert(name_of(name) == text_view(over.hostname));
                }
                let bytes: Vec<u8> = init_reboot_packet(
                    xid,
                    over.chaddr.as_slice(),
                    over.saved.ip,
                    name,
                );
                (
                    Reboot { phase: RebootPhase::Asking { xid }, ..over },
                    RebootAction::Request(xid, bytes),
                )
            },
            (RebootPhase::Asking { xid }, Event::Answer(DhcpReply::Ack(m))) => {
                let lease: Lease = lease_from(
                    m,
                    Some(over.saved.ip),
                    over.saved.server,
                    over.saved.lease_secs,
                );
                let ip: Ipv4Addr = lease.ip;
                (
                    Reboot { phase: RebootPhase::Probing { xid, lease }, ..over },
                    RebootAction::Probe(ip),
                )
            },
            (RebootPhase::Asking { .. }, Event::Answer(DhcpReply::Nak)) => {
                (over, RebootAction::Fail(RebootError::Nak))
            },
            (RebootPhase::Asking { .. }, Event::Answer(DhcpReply::Offer(_))) => {
                (over, RebootAction::Fail(RebootError::Unexpected))
            },
            (RebootPhase::Asking { .. }, Event::NoAnswer) => {
                (over, RebootAction::Fail(RebootError::NoAnswer))
            },
            (RebootPhase::Probing { xid, lease }, Event::Probed(probe)) => {
                let ip: Ipv4Addr = lease.ip;
                match judge_probe(probe, xid, over.chaddr.as_slice(), lease) {
                    Verdict::Decline(bytes) => (over, RebootAction::Decline(ip, bytes)),
                    Verdict::Bind(lease) => (over, RebootAction::Bind(lease)),
                }
            },
            (phase, _) => (Reboot { phase, ..over }, RebootAction::Ignore),
        }
    }
}

/// A lease that is taken up again keeps the saved address unless the server assigns another, and
/// the saved server and lease time unless the server names others.
pub proof fn law_reboot_keeps_saved(s: RebootView, xid: u32, ack: ReplyView)
    requires
        s.phase == (RebootPhaseView::Asking { xid }),
    ensures
        ({
            let next = reboot_next(s, EventView::Answer(DhcpReplyView::Ack(ack))).0;
            &&& next.phase matches RebootPhaseView::Probing { xid: id, lease }
            &&& id == xid
            &&& ack.yiaddr.bits == 0 ==> lease.ip == s.saved.ip
            &&& ack.yiaddr.bits != 0 ==> lease.ip == ack.yiaddr
            &&& ack.server is None ==> lease.server == s.saved.server
            &&& ack.lease_secs is None ==> lease.lease_secs == s.saved.lease_secs
        }),
{
}

/// A lease whose file was written before a restart is found again, is still good on the same
/// interface until its time is over, and is asked for by its address.
pub proof fn law_written_lease_is_asked_for(
    iface: Seq<char>,
    lease: LeaseView,
    obtained: u64,
    now: u64,
    chaddr: Seq<u8>,
    hostname: Option<Seq<char>>,
    xid: u32,
)
    requires
        !iface.contains('\n'),
        iface.len() > 0 ==> !is_space(iface.last()),
        now < obtained + lease.lease_secs,
    ensures
        match lease_value(with_line_feeds(lease_lines(iface, lease, obtained))) {
            Ok((saved_iface, saved, since)) => {
                let ready = RebootView { chaddr, hostname, saved, phase: RebootPhaseView::Ready };
                &&& saved_iface == iface
                &&& now < since + saved.lease_secs
                &&& reboot_next(ready, EventView::Id(xid)).1 == RebootActionView::Request(
                    xid,
                    packet(
                        broadcast_header(xid, chaddr),
                        init_reboot_options(chaddr, lease.ip, hostname),
                    ),
                )
            },
            Err(_) => false,
        },
{
    law_lease_reads_back(iface, lease, obtained);
}

/// The words for a saved lease that is not asked for again.
pub fn saved_error_text(e: SavedError) -> (r: &'static str)
    ensures
        match e {
            SavedError::IfaceMismatch => r@ == "lease iface mismatch"@,
            SavedError::Expired => r@ == "lease expired"@,
        },
{
    match e {
        SavedError::IfaceMismatch => "lease iface mismatch",
        SavedError::Expired => "lease expired",
    }
}

/// The words for a lease that is not taken up again; where no answer came, the socket's own words
/// stand in their place.
pub fn reboot_error_text(e: RebootError) -> (r: Option<&'static str>)
    ensures
        match e {
            RebootError::Nak => r matches Some(text) && text@ == "init-reboot nak"@,
            RebootError::Unexpected => r matches Some(text) && text@
                == "init-reboot unexpected reply"@,
            RebootError::NoAnswer => r is None,
        },
{
    match e {
        RebootError::Nak => Some("init-reboot nak"),
        RebootError::Unexpected => Some("init-reboot unexpected reply"),
        RebootError::NoAnswer => None,
    }
}

/// The words for a lease whose address another host has.
pub fn conflict_text() -> (r: &'static str)
    ensures
        r@ == "arp conflict"@,
{
    "arp conflict"
}

/// A lease that is taken up again after a restart has the routers, the name servers and the mask of
/// the acknowledgement, whatever the lease file says of them. Its address, server and lease time are
/// those of the acknowledgement too where it names them, else the saved ones; T1 and T2 are those
/// that it names, else half and seven eighths of the lease time. This is the lease that is bound
/// unless the probe finds another holder of its address.
pub proof fn law_rebooted_lease(s: RebootView, xid: u32, ack: ReplyView, probe: Probe)
    requires
        s.phase == (RebootPhaseView::Asking { xid }),
    ensures
        ({
            let (asked, action) = reboot_next(s, EventView::Answer(DhcpReplyView::Ack(ack)));
            let (over, last) = reboot_next(asked, EventView::Probed(probe));
            &&& asked.phase matches RebootPhaseView::Probing { xid: id, lease }
            &&& id == xid
            &&& asked.chaddr == s.chaddr && asked.hostname == s.hostname && asked.saved == s.saved
            &&& action == RebootActionView::Probe(lease.ip)
            &&& over.phase is Over
            &&& probe is Conflict ==> last == RebootActionView::Decline(
                lease.ip,
                packet(
                    broadcast_header(xid, s.chaddr),
                    decline_options(s.chaddr, lease.ip, lease.server),
                ),
            )
            &&& probe !is Conflict ==> last == RebootActionView::Bind(lease)
            &&& lease.routers == ack.routers
            &&& lease.dns == ack.dns
            &&& ack.subnet matches Some(mask) ==> lease.prefix == ones(mask.bits as nat)
            &&& ack.subnet is None ==> lease.prefix == 24
            &&& ack.yiaddr.bits != 0 ==> lease.ip == ack.yiaddr
            &&& ack.yiaddr.bits == 0 ==> lease.ip == s.saved.ip
            &&& ack.server matches Some(named) ==> lease.server == named
            &&& ack.server is None ==> lease.server == s.saved.server
            &&& ack.lease_secs matches Some(n) ==> lease.lease_secs == n
            &&& ack.lease_secs is None ==> lease.lease_secs == s.saved.lease_secs
            &&& ack.t1_secs matches Some(n) ==> lease.t1_secs == n
            &&& ack.t1_secs is None ==> lease.t1_secs == lease.lease_secs / 2
            &&& ack.t2_secs matches Some(n) ==> lease.t2_secs == n
            &&& ack.t2_secs is None && lease.lease_secs * 7 <= 0xffff_ffff ==> {
                &&& lease.t2_secs * 8 <= lease.lease_secs * 7
                &&& lease.lease_secs * 7 < (lease.t2_secs + 1) * 8
            }
            &&& ack.t2_secs is None && lease.lease_secs * 7 > 0xffff_ffff ==> lease.t2_secs
                == 0x1fff_ffff
        }),
{
    law_acknowledged_lease(ack, Some(s.saved.ip), s.saved.server, s.saved.lease_secs);
}

/// Any other answer, and none, means to do without the saved lease; an event that is not awaited
/// changes nothing.
pub proof fn law_reboot_without_acknowledgement(s: RebootView, xid: u32, event: EventView)
    ensures
        s.phase == (RebootPhaseView::Asking { xid }) ==> match event {
            EventView::Answer(DhcpReplyView::Ack(_)) => true,
            EventView::Answer(DhcpReplyView::Nak) => reboot_next(s, event) == (
                RebootView { phase: RebootPhaseView::Over, ..s },
                RebootActionView::Fail(RebootError::Nak),
            ),
            EventView::Answer(DhcpReplyView::Offer(_)) => reboot_next(s, event) == (
                RebootView { phase: RebootPhaseView::Over, ..s },
                RebootActionView::Fail(RebootError::Unexpected),
            ),
            EventView::NoAnswer => reboot_next(s, event) == (
                RebootView { phase: RebootPhaseView::Over, ..s },
                RebootActionView::Fail(RebootError::NoAnswer),
            ),
            _ => reboot_next(s, event) == (s, RebootActionView::Ignore),
        },
        s.phase is Ready && event !is Id ==> reboot_next(s, event) == (s, RebootActionView::Ignore),
        s.phase is Probing && event !is Probed ==> reboot_next(s, event) == (
            s,
            RebootActionView::Ignore,
        ),
        s.phase is Over ==> reboot_next(s, event) == (s, RebootActionView::Ignore),
{
}

/// The request after a restart is for the saved address, whatever else was saved, and its answer is
/// then awaited under the id that was drawn.
pub proof fn law_reboot_asks_for_the_saved_address(s: RebootView, xid: u32)
    requires
        s.phase is Ready,
    ensures
        reboot_next(s, EventView::Id(xid)) == (
            RebootView { phase: RebootPhaseView::Asking { xid }, ..s },
            RebootActionView::Request(
                xid,
                packet(
                    broadcast_header(xid, s.chaddr),
                    init_reboot_options(s.chaddr, s.saved.ip, s.hostname),
                ),
            ),
        ),
{
}

/// The views of the client and of what it does leave nothing out.
pub proof fn law_reboot_views(r: Reboot, x: u32, lease: Lease, ip: Ipv4Addr, bytes: Vec<u8>)
    ensures
        r@.chaddr == r.chaddr@,
        r@.saved == r.saved@,
        r@.phase == r.phase@,
        r.hostname matches Some(h) ==> r@.hostname == Some(h@),
        r.hostname is None ==> r@.hostname is None,
        RebootPhase::Ready@ == RebootPhaseView::Ready,
        (RebootPhase::Asking { xid: x })@ == (RebootPhaseView::Asking { xid: x }),
        (RebootPhase::Probing { xid: x, lease })@ == (RebootPhaseView::Probing {
            xid: x,
            lease: lease@,
        }),
        RebootPhase::Over@ == RebootPhaseView::Over,
        RebootAction::Request(x, bytes)@ == RebootActionView::Request(x, bytes@),
        RebootAction::Probe(ip)@ == RebootActionView::Probe(ip),
        RebootAction::Bind(lease)@ == RebootActionView::Bind(lease@),
        RebootAction::Decline(ip, bytes)@ == RebootActionView::Decline(ip, bytes@),
        RebootAction::Ignore@ == RebootActionView::Ignore,
{
}

/// Whatever lease is being probed, only a conflict turns it down, with a decline that names the
/// lease's address and server. Otherwise the lease is bound as it stands.
pub proof fn law_reboot_probe_decides(s: RebootView, xid: u32, lease: LeaseView, probe: Probe)
    requires
        s.phase == (RebootPhaseView::Probing { xid, lease }),
    ensures
        probe is Conflict ==> reboot_next(s, EventView::Probed(probe)) == (
            RebootView { phase: RebootPhaseView::Over, ..s },
            RebootActionView::Decline(
                lease.ip,
                packet(
                    broadcast_header(xid, s.chaddr),
                    decline_options(s.chaddr, lease.ip, lease.server),
                ),
            ),
        ),
        probe !is Conflict ==> reboot_next(s, EventView::Probed(probe)) == (
            RebootView { phase: RebootPhaseView::Over, ..s },
            RebootActionView::Bind(lease),
        ),
{
}

} // verus!
