//! Getting a lease: discover, offer, request, acknowledgement, and a probe for other holders.

use crate::addr::{ones, Ipv4Addr};
use crate::lease::{Lease, LeaseView, DEFAULT_LEASE_SECS};
use crate::number::{decimal, decimal_text};
use crate::reply::{
    granted, law_acknowledged_lease, lease_from, DhcpReply, DhcpReplyView, ReplyView,
};
use crate::request::{
    broadcast_header, decline_options, decline_packet, discover_options, discover_packet, packet,
    request_options, request_packet,
};
use crate::text::text_view;
use vstd::prelude::*;
use vstd::string::*;

verus! {

/// How many seconds to wait after a decline before the next attempt.
pub const DECLINE_WAIT_SECS: u64 = 10;

/// What asking the network for other holders of an address has come to.
#[derive(Clone, Copy, Debug, PartialEq, Eq, Structural)]
pub enum Probe {
    /// Another host has the address.
    Conflict,
    /// Nobody answered.
    Clear,
    /// The network could not be asked.
    Failed,
}

/// What follows from a probe.
pub enum Verdict {
    /// Use the lease.
    Bind(Lease),
    /// Send these bytes and do not use the lease.
    Decline(Vec<u8>),
}

/// The decline of `lease`.
pub open spec fn decline_of(xid: u32, chaddr: Seq<u8>, lease: LeaseView) -> Seq<u8> {
    packet(broadcast_header(xid, chaddr), decline_options(chaddr, lease.ip, lease.server))
}

/// What follows from a probe for `lease`: only an address that another host has is declined.
pub fn judge_probe(probe: Probe, xid: u32, chaddr: &[u8], lease: Lease) -> (r: Verdict)
    ensures
        match probe {
            Probe::Conflict => r matches Verdict::Decline(bytes) && bytes@ == decline_of(
                xid,
                chaddr@,
                lease@,
            ),
            _ => r == Verdict::Bind(lease),
        },
{
    match probe {
        Probe::Conflict => Verdict::Decline(decline_packet(xid, chaddr, lease.ip, lease.server)),
        _ => Verdict::Bind(lease),
    }
}

/// What the client is waiting for.
pub enum Phase {
    /// A transaction id for the next attempt.
    Idle,
    /// An offer.
    Selecting { xid: u32 },
    /// An acknowledgement from `server`.
    Requesting { xid: u32, server: Ipv4Addr },
    /// The probe for the address of `lease`.
    Probing { xid: u32, lease: Lease },
    /// Nothing: a lease was bound, or no attempt is left.
    Done,
}

/// What a [`Phase`] stands for.
#[verifier::ext_equal]
pub ghost enum PhaseView {
    Idle,
    Selecting { xid: u32 },
    Requesting { xid: u32, server: Ipv4Addr },
    Probing { xid: u32, lease: LeaseView },
    Done,
}

impl View for Phase {
    type V = PhaseView;

    open spec fn view(&self) -> PhaseView {
        match self {
            Phase::Idle => PhaseView::Idle,
            Phase::Selecting { xid } => PhaseView::Selecting { xid: *xid },
            Phase::Requesting { xid, server } => PhaseView::Requesting {
                xid: *xid,
                server: *server,
            },
            Phase::Probing { xid, lease } => PhaseView::Probing { xid: *xid, lease: lease@ },
            Phase::Done => PhaseView::Done,
        }
    }
}

/// The client while it gets a lease.
pub struct Dora {
    pub chaddr: Vec<u8>,
    pub hostname: Option<String>,
    pub tries: u32,
    pub attempt: u32,
    pub phase: Phase,
}

/// What a [`Dora`] stands for.
#[verifier::ext_equal]
pub ghost struct DoraView {
    pub chaddr: Seq<u8>,
    pub hostname: Option<Seq<char>>,
    pub tries: u32,
    pub attempt: u32,
    pub phase: PhaseView,
}

impl View for Dora {
    type V = DoraView;

    open spec fn view(&self) -> DoraView {
        DoraView {
            chaddr: self.chaddr@,
            hostname: text_view(self.hostname),
            tries: self.tries,
            attempt: self.attempt,
            phase: self.phase@,
        }
    }
}

/// What has happened.
pub enum Event {
    /// A transaction id was drawn.
    Id(u32),
    /// The awaited answer came.
    Answer(DhcpReply),
    /// No answer came.
    NoAnswer,
    /// The probe is over.
    Probed(Probe),
}

/// What an [`Event`] stands for.
#[verifier::ext_equal]
pub ghost enum EventView {
    Id(u32),
    Answer(DhcpReplyView),
    NoAnswer,
    Probed(Probe),
}

impl View for Event {
    type V = EventView;

    open spec fn view(&self) -> EventView {
        match self {
            Event::Id(xid) => EventView::Id(*xid),
            Event::Answer(reply) => EventView::Answer(reply@),
            Event::NoAnswer => EventView::NoAnswer,
            Event::Probed(probe) => EventView::Probed(*probe),
        }
    }
}

/// Why an attempt has failed.
#[derive(Clone, Copy, Debug, PartialEq, Eq, Structural)]
pub enum Setback {
    NakForDiscover,
    AckForDiscover,
    NoOffer,
    OfferWithoutServer,
    NakForRequest,
    OfferForRequest,
    NoAck,
}

/// What to do next.
pub enum Action {
    /// Send the bytes of a discover to all, and wait for the answer with the id.
    Discover(u32, Vec<u8>),
    /// Send the bytes of a request to all, and wait for the answer with the id.
    Request(u32, Vec<u8>),
    /// Ask the network who has the address.
    Probe(Ipv4Addr),
    /// Draw a transaction id for the next attempt.
    Retry(Setback),
    /// Send the bytes of a decline for the address to all, wait, and draw a transaction id.
    Decline(Ipv4Addr, Vec<u8>),
    /// Use the lease.
    Bind(Lease),
    /// No attempt is left.
    GiveUp,
    /// Nothing: the event is none that was awaited.
    Ignore,
}

/// What an [`Action`] stands for.
#[verifier::ext_equal]
pub ghost enum ActionView {
    Discover(u32, Seq<u8>),
    Request(u32, Seq<u8>),
    Probe(Ipv4Addr),
    Retry(Setback),
    Decline(Ipv4Addr, Seq<u8>),
    Bind(LeaseView),
    GiveUp,
    Ignore,
}

impl View for Action {
    type V = ActionView;

    open spec fn view(&self) -> ActionView {
        match self {
            Action::Discover(xid, bytes) => ActionView::Discover(*xid, bytes@),
            Action::Request(xid, bytes) => ActionView::Request(*xid, bytes@),
            Action::Probe(ip) => ActionView::Probe(*ip),
            Action::Retry(why) => ActionView::Retry(*why),
            Action::Decline(ip, bytes) => ActionView::Decline(*ip, bytes@),
            Action::Bind(lease) => ActionView::Bind(lease@),
            Action::GiveUp => ActionView::GiveUp,
            Action::Ignore => ActionView::Ignore,
        }
    }
}

/// The client before its first attempt.
pub open spec fn dora_start(
    chaddr: Seq<u8>,
    hostname: Option<Seq<char>>,
    tries: u32,
) -> DoraView {
    DoraView { chaddr, hostname, tries, attempt: 0, phase: PhaseView::Idle }
}

/// The client after an event, and what it does about it.
pub open spec fn dora_next(s: DoraView, event: EventView) -> (DoraView, ActionView) {
    let retry = |why: Setback|
        (DoraView { phase: PhaseView::Idle, ..s }, ActionView::Retry(why));
    match (s.phase, event) {
        (PhaseView::Idle, EventView::Id(xid)) => if s.attempt < s.tries {
            (
                DoraView {
                    attempt: (s.attempt + 1) as u32,
                    phase: PhaseView::Selecting { xid },
                    ..s
                },
                ActionView::Discover(
                    xid,
                    packet(
                        broadcast_header(xid, s.chaddr),
                        discover_options(s.chaddr, s.hostname),
                    ),
                ),
            )
        } else {
            (DoraView { phase: PhaseView::Done, ..s }, ActionView::GiveUp)
        },
        (PhaseView::Selecting { xid }, EventView::Answer(DhcpReplyView::Offer(m))) => match m.server {
            Some(server) => (
                DoraView { phase: PhaseView::Requesting { xid, server }, ..s },
                ActionView::Request(
                    xid,
                    packet(
                        broadcast_header(xid, s.chaddr),
                        request_options(s.chaddr, m.yiaddr, server, s.hostname),
                    ),
                ),
            ),
            None => retry(Setback::OfferWithoutServer),
        },
        (PhaseView::Selecting { xid }, EventView::Answer(DhcpReplyView::Nak)) => retry(
            Setback::NakForDiscover,
        ),
        (PhaseView::Selecting { xid }, EventView::Answer(DhcpReplyView::Ack(m))) => retry(
            Setback::AckForDiscover,
        ),
        (PhaseView::Selecting { xid }, EventView::NoAnswer) => retry(Setback::NoOffer),
        (
            PhaseView::Requesting { xid, server },
            EventView::Answer(DhcpReplyView::Ack(m)),
        ) => {
            let lease = granted(m, None, server, DEFAULT_LEASE_SECS);
            (
                DoraView { phase: PhaseView::Probing { xid, lease }, ..s },
                ActionView::Probe(lease.ip),
            )
        },
        (PhaseView::Requesting { xid, server }, EventView::Answer(DhcpReplyView::Nak)) => retry(
            Setback::NakForRequest,
        ),
        (PhaseView::Requesting { xid, server }, EventView::Answer(DhcpReplyView::Offer(m))) => retry(
            Setback::OfferForRequest,
        ),
        (PhaseView::Requesting { xid, server }, EventView::NoAnswer) => retry(Setback::NoAck),
        (PhaseView::Probing { xid, lease }, EventView::Probed(Probe::Conflict)) => (
            DoraView { phase: PhaseView::Idle, ..s },
            ActionView::Decline(lease.ip, decline_of(xid, s.chaddr, lease)),
        ),
        (PhaseView::Probing { xid, lease }, EventView::Probed(_)) => (
            DoraView { phase: PhaseView::Done, ..s },
            ActionView::Bind(lease),
        ),
        _ => (s, ActionView::Ignore),
    }
}

impl Dora {
    /// The client before its first attempt.
    pub fn new(chaddr: Vec<u8>, hostname: Option<String>, tries: u32) -> (r: Dora)
        ensures
            r@ == dora_start(chaddr@, text_view(hostname), tries),
    {
        Dora { chaddr, hostname, tries, attempt: 0, phase: Phase::Idle }
    }

    /// The host name to send, where there is one.
    fn name(&self) -> (r: Option<&str>)
        ensures
            crate::request::name_of(r) == self@.hostname,
    {
        match &self.hostname {
            Some(h) => Some(h.as_str()),
            None => None,
        }
    }

    /// The client after an event, and what it does about it.
    pub fn step(self, event: Event) -> (r: (Dora, Action))
        ensures
            (r.0@, r.1@) == dora_next(self@, event@),
    {
        let Dora { chaddr, hostname, tries, attempt, phase } = self;
        let rest = Dora { chaddr, hostname, tries, attempt, phase: Phase::Idle };
        match (phase, event) {
            (Phase::Idle, Event::Id(xid)) => {
                if attempt < tries {
                    let bytes: Vec<u8> = discover_packet(xid, rest.chaddr.as_slice(), rest.name());
                    (
                        Dora { attempt: attempt + 1, phase: Phase::Selecting { xid }, ..rest },
                        Action::Discover(xid, bytes),
                    )
                } else {
                    (Dora { phase: Phase::Done, ..rest }, Action::GiveUp)
                }
            },
            (Phase::Selecting { xid }, Event::Answer(DhcpReply::Offer(m))) => match m.server {
                Some(server) => {
                    let bytes: Vec<u8> = request_packet(
                        xid,
                        rest.chaddr.as_slice(),
                        m.yiaddr,
                        server,
                        rest.name(),
                    );
                    (
                        Dora { phase: Phase::Requesting { xid, server }, ..rest },
                        Action::Request(xid, bytes),
                    )
                },
                None => (rest, Action::Retry(Setback::OfferWithoutServer)),
            },
            (Phase::Selecting { .. }, Event::Answer(DhcpReply::Nak)) => {
                (rest, Action::Retry(Setback::NakForDiscover))
            },
            (Phase::Selecting { .. }, Event::Answer(DhcpReply::Ack(_))) => {
                (rest, Action::Retry(Setback::AckForDiscover))
            },
            (Phase::Selecting { .. }, Event::NoAnswer) => {
                (rest, Action::Retry(Setback::NoOffer))
            },
            (Phase::Requesting { xid, server }, Event::Answer(DhcpReply::Ack(m))) => {
                let lease: Lease = lease_from(m, None, server, DEFAULT_LEASE_SECS);
                let ip: Ipv4Addr = lease.ip;
                (Dora { phase: Phase::Probing { xid, lease }, ..rest }, Action::Probe(ip))
            },
            (Phase::Requesting { .. }, Event::Answer(DhcpReply::Nak)) => {
                (rest, Action::Retry(Setback::NakForRequest))
            },
            (Phase::Requesting { .. }, Event::Answer(DhcpReply::Offer(_))) => {
                (rest, Action::Retry(Setback::OfferForRequest))
            },
            (Phase::Requesting { .. }, Event::NoAnswer) => {
                (rest, Action::Retry(Setback::NoAck))
            },
            (Phase::Probing { xid, lease }, Event::Probed(probe)) => {
                let ip: Ipv4Addr = lease.ip;
                match judge_probe(probe, xid, rest.chaddr.as_slice(), lease) {
                    Verdict::Decline(bytes) => (rest, Action::Decline(ip, bytes)),
                    Verdict::Bind(lease) => {
                        (Dora { phase: Phase::Done, ..rest }, Action::Bind(lease))
                    },
                }
            },
            (phase, _) => (Dora { phase, ..rest }, Action::Ignore),
        }
    }
}

/// The client after `events`.
pub open spec fn dora_after(s: DoraView, events: Seq<EventView>) -> DoraView
    decreases events.len(),
{
    if events.len() == 0 {
        s
    } else {
        dora_next(dora_after(s, events.drop_last()), events.last()).0
    }
}

/// How many discovers the client has sent in the course of `events`.
pub open spec fn discovers(s: DoraView, events: Seq<EventView>) -> nat
    decreases events.len(),
{
    if events.len() == 0 {
        0
    } else {
        let before = discovers(s, events.drop_last());
        if dora_next(dora_after(s, events.drop_last()), events.last()).1 is Discover {
            before + 1
        } else {
            before
        }
    }
}

/// Whatever happens, no more discovers are sent than there are tries, and the client gives up
/// only when all of them were used.
pub proof fn law_tries_are_kept(
    chaddr: Seq<u8>,
    hostname: Option<Seq<char>>,
    tries: u32,
    events: Seq<EventView>,
)
    ensures
        ({
            let start = dora_start(chaddr, hostname, tries);
            let now = dora_after(start, events);
            &&& discovers(start, events) == now.attempt
            &&& now.attempt <= now.tries
            &&& now.tries == tries
            &&& forall|event: EventView| #[trigger]
                dora_next(now, event).1 is GiveUp ==> discovers(start, events) == tries
        }),
    decreases events.len(),
{
    if events.len() > 0 {
        law_tries_are_kept(chaddr, hostname, tries, events.drop_last());
    }
}

/// Whether among `events` a server offered something and then, later, an acknowledgement granted
/// `lease`.
pub open spec fn offered_and_granted(events: Seq<EventView>, lease: LeaseView) -> bool {
    exists|i: int, j: int, server: Ipv4Addr|
        0 <= i < j < events.len() && offers(#[trigger] events[i], server) && #[trigger] grants(
            events[j],
            server,
            lease,
        )
}

/// Whether `event` is an offer from `server`.
pub open spec fn offers(event: EventView, server: Ipv4Addr) -> bool {
    event matches EventView::Answer(DhcpReplyView::Offer(m)) && m.server == Some(server)
}

/// Whether `event` is an acknowledgement that grants `lease`, with `server` where it names none.
pub open spec fn grants(event: EventView, server: Ipv4Addr, lease: LeaseView) -> bool {
    event matches EventView::Answer(DhcpReplyView::Ack(m)) && lease == granted(
        m,
        None,
        server,
        DEFAULT_LEASE_SECS,
    )
}

proof fn lemma_phase_has_cause(start: DoraView, events: Seq<EventView>)
    requires
        start.phase is Idle,
    ensures
        dora_after(start, events).phase matches PhaseView::Requesting { xid, server }
            ==> exists|i: int| 0 <= i < events.len() && offers(#[trigger] events[i], server),
        dora_after(start, events).phase matches PhaseView::Probing { xid, lease }
            ==> offered_and_granted(events, lease),
    decreases events.len(),
{
    if events.len() > 0 {
        let before = events.drop_last();
        let last = events.last();
        lemma_phase_has_cause(start, before);
        let s = dora_after(start, before);
        let n = before.len() as int;
        assert(events[n] == last);
        match dora_after(start, events).phase {
            PhaseView::Requesting { xid, server } => {
                if s.phase == dora_after(start, events).phase {
                    let i = choose|i: int|
                        0 <= i < before.len() && offers(#[trigger] before[i], server);
                    assert(events[i] == before[i]);
                } else {
                    assert(offers(events[n], server));
                }
            },
            PhaseView::Probing { xid, lease } => {
                if s.phase == dora_after(start, events).phase {
                    let (i, j, server) = choose|i: int, j: int, server: Ipv4Addr|
                        0 <= i < j < before.len() && offers(#[trigger] before[i], server)
                            && #[trigger] grants(before[j], server, lease);
                    assert(events[i] == before[i] && events[j] == before[j]);
                    assert(offers(events[i], server) && grants(events[j], server, lease));
                } else {
                    let server = s.phase->Requesting_server;
                    let i = choose|i: int|
                        0 <= i < before.len() && offers(#[trigger] before[i], server);
                    assert(events[i] == before[i]);
                    assert(offers(events[i], server) && grants(events[n], server, lease));
                }
            },
            _ => {},
        }
    }
}

/// A lease that the client binds was acknowledged after an offer, and the probe for its address
/// found no other holder.
pub proof fn law_bound_lease_was_granted(
    chaddr: Seq<u8>,
    hostname: Option<Seq<char>>,
    tries: u32,
    events: Seq<EventView>,
    event: EventView,
    lease: LeaseView,
)
    requires
        dora_next(dora_after(dora_start(chaddr, hostname, tries), events), event).1
            == ActionView::Bind(lease),
    ensures
        offered_and_granted(events, lease),
        event is Probed,
        event != EventView::Probed(Probe::Conflict),
{
    lemma_phase_has_cause(dora_start(chaddr, hostname, tries), events);
}

/// An address that another host has is declined to the server that granted it, and its lease is
/// dropped.
pub proof fn law_conflict_declines(s: DoraView, xid: u32, lease: LeaseView)
    requires
        s.phase == (PhaseView::Probing { xid, lease }),
    ensures
        ({
            let (next, action) = dora_next(s, EventView::Probed(Probe::Conflict));
            &&& next.phase is Idle
            &&& action == ActionView::Decline(
                lease.ip,
                packet(
                    broadcast_header(xid, s.chaddr),
                    decline_options(s.chaddr, lease.ip, lease.server),
                ),
            )
        }),
{
}

/// An offer is taken up by a request to the server that made it, for the address that it offers,
/// under the same transaction id.
pub proof fn law_offer_is_requested(
    s: DoraView,
    xid: u32,
    offer: ReplyView,
    server: Ipv4Addr,
)
    requires
        s.phase == (PhaseView::Selecting { xid }),
        offer.server == Some(server),
    ensures
        dora_next(s, EventView::Answer(DhcpReplyView::Offer(offer))) == (
            DoraView { phase: PhaseView::Requesting { xid, server }, ..s },
            ActionView::Request(
                xid,
                packet(
                    broadcast_header(xid, s.chaddr),
                    request_options(s.chaddr, offer.yiaddr, server, s.hostname),
                ),
            ),
        ),
{
}

/// A refusal, whatever it answers, ends the attempt and not the client: nothing is bound, no try
/// is lost, and the next attempt starts with a new transaction id.
pub proof fn law_nak_retries(s: DoraView)
    requires
        s.phase is Selecting || s.phase is Requesting,
    ensures
        ({
            let (next, action) = dora_next(s, EventView::Answer(DhcpReplyView::Nak));
            &&& action is Retry
            &&& next == DoraView { phase: PhaseView::Idle, ..s }
        }),
{
}

/// The words for a client that gives up on `iface` after `tries` attempts.
pub fn give_up_text(iface: &str, tries: u32) -> (r: String)
    ensures
        r@ == "dhcp failed on "@ + iface@ + " after "@ + decimal(tries as nat) + " tries"@,
{
    let mut out: String = "dhcp failed on ".to_owned();
    out.append(iface);
    out.append(" after ");
    out.append(decimal_text(tries as u64).as_str());
    out.append(" tries");
    out
}

/// While there are tries left, a transaction id starts an attempt with a discover under that id;
/// when there are none, the client gives up.
pub proof fn law_attempt_starts_with_discover(s: DoraView, xid: u32)
    requires
        s.phase is Idle,
    ensures
        s.attempt < s.tries ==> dora_next(s, EventView::Id(xid)) == (
            DoraView {
                chaddr: s.chaddr,
                hostname: s.hostname,
                tries: s.tries,
                attempt: (s.attempt + 1) as u32,
                phase: PhaseView::Selecting { xid },
            },
            ActionView::Discover(
                xid,
                packet(broadcast_header(xid, s.chaddr), discover_options(s.chaddr, s.hostname)),
            ),
        ),
        s.attempt >= s.tries ==> dora_next(s, EventView::Id(xid)) == (
            DoraView { phase: PhaseView::Done, ..s },
            ActionView::GiveUp,
        ),
{
}

/// An acknowledged request gives a lease that lists exactly the routers and the name servers of the
/// acknowledgement, in their order, with its address, mask, server and times; only what it does not
/// name is filled in: the server that was asked, an hour, half and seven eighths of the lease time,
/// a mask of 24 bits. The lease's address is probed, and this lease is bound unless another host has
/// the address.
pub proof fn law_acknowledged_request(
    s: DoraView,
    xid: u32,
    server: Ipv4Addr,
    ack: ReplyView,
    probe: Probe,
)
    requires
        s.phase == (PhaseView::Requesting { xid, server }),
    ensures
        ({
            let (probing, action) = dora_next(s, EventView::Answer(DhcpReplyView::Ack(ack)));
            let (next, last) = dora_next(probing, EventView::Probed(probe));
            &&& probing.phase matches PhaseView::Probing { xid: id, lease }
            &&& id == xid
            &&& probing == DoraView { phase: probing.phase, ..s }
            &&& action == ActionView::Probe(lease.ip)
            &&& probe is Conflict ==> next.phase is Idle && last is Decline
            &&& probe !is Conflict ==> next.phase is Done && last == ActionView::Bind(lease)
            &&& lease.ip == ack.yiaddr
            &&& lease.routers == ack.routers
            &&& lease.dns == ack.dns
            &&& ack.subnet matches Some(mask) ==> lease.prefix == ones(mask.bits as nat)
            &&& ack.subnet is None ==> lease.prefix == 24
            &&& ack.yiaddr.bits != 0 ==> lease.ip == ack.yiaddr
            &&& ack.yiaddr.bits == 0 ==> lease.ip == ack.yiaddr
            &&& ack.server matches Some(named) ==> lease.server == named
            &&& ack.server is None ==> lease.server == server
            &&& ack.lease_secs matches Some(n) ==> lease.lease_secs == n
            &&& ack.lease_secs is None ==> lease.lease_secs == 3600
            &&& ack.t1_secs matches Some(n) ==> lease.t1_secs == n
            &&& ack.t1_secs is None ==> lease.t1_secs == lease.lease_secs / 2
            &&& ack.t2_secs matches Some(n) ==> lease.t2_secs == n
            &&& ack.t2_secs is None && lease.lease_secs * 7 <= 0xffff_ffff ==> {
                &&& lease.t2_secs * 8 <= lease.lease_secs * 7
                &&& lease.lease_secs * 7 < (lease.t2_secs + 1) * 8
            }
            &&& ack.t2_secs is None && lease.lease_secs * 7 > 0xffff_ffff ==> lease.t2_secs
                == 0x1fff_ffff
        }),
{
    law_acknowledged_lease(ack, None, server, DEFAULT_LEASE_SECS);
}

/// Whatever is no offer with a server, while an offer is awaited, and no acknowledgement, while one
/// is awaited, ends the attempt and nothing more; what is not awaited at all changes nothing.
pub proof fn law_other_events(s: DoraView, event: EventView)
    ensures
        ({
            let idle = DoraView { phase: PhaseView::Idle, ..s };
            let (next, action) = dora_next(s, event);
            match (s.phase, event) {
                (PhaseView::Idle, EventView::Id(_)) => true,
                (PhaseView::Selecting { .. }, EventView::Answer(DhcpReplyView::Offer(m))) =>
                    m.server is None ==> next == idle && action == ActionView::Retry(
                        Setback::OfferWithoutServer,
                    ),
                (PhaseView::Selecting { .. }, EventView::Answer(DhcpReplyView::Ack(_))) => next
                    == idle && action == ActionView::Retry(Setback::AckForDiscover),
                (PhaseView::Selecting { .. }, EventView::Answer(DhcpReplyView::Nak)) => next == idle
                    && action == ActionView::Retry(Setback::NakForDiscover),
                (PhaseView::Selecting { .. }, EventView::NoAnswer) => next == idle && action
                    == ActionView::Retry(Setback::NoOffer),
                (PhaseView::Requesting { .. }, EventView::Answer(DhcpReplyView::Ack(_))) => true,
                (PhaseView::Requesting { .. }, EventView::Answer(DhcpReplyView::Offer(_))) => next
                    == idle && action == ActionView::Retry(Setback::OfferForRequest),
                (PhaseView::Requesting { .. }, EventView::Answer(DhcpReplyView::Nak)) => next
                    == idle && action == ActionView::Retry(Setback::NakForRequest),
                (PhaseView::Requesting { .. }, EventView::NoAnswer) => next == idle && action
                    == ActionView::Retry(Setback::NoAck),
                (PhaseView::Probing { .. }, EventView::Probed(_)) => true,
                _ => next == s && action is Ignore,
            }
        }),
{
}

/// No event changes the client's hardware address, its host name or how many tries it has, and only
/// a discover uses one of them up.
pub proof fn law_dora_stays_itself(s: DoraView, event: EventView)
    requires
        s.attempt <= s.tries,
    ensures
        ({
            let (next, action) = dora_next(s, event);
            &&& next.chaddr == s.chaddr && next.hostname == s.hostname && next.tries == s.tries
            &&& next.attempt == if action is Discover {
                s.attempt + 1
            } else {
                s.attempt as int
            }
        }),
{
}

/// The client starts with nothing tried, and with what it was given.
pub proof fn law_dora_start(chaddr: Seq<u8>, hostname: Option<Seq<char>>, tries: u32)
    ensures
        ({
            let s = dora_start(chaddr, hostname, tries);
            &&& s.chaddr == chaddr && s.hostname == hostname && s.tries == tries
            &&& s.attempt == 0 && s.phase is Idle
        }),
{
}

/// The decline of a lease goes out under the id of its request, and names the lease's address and
/// its server.
pub proof fn law_decline_names_the_lease(xid: u32, chaddr: Seq<u8>, lease: LeaseView)
    ensures
        decline_of(xid, chaddr, lease) == packet(
            broadcast_header(xid, chaddr),
            decline_options(chaddr, lease.ip, lease.server),
        ),
{
}

/// The views of the client and of what happens to it leave nothing out.
pub proof fn law_dora_views(d: Dora, x: u32, a: Ipv4Addr, lease: Lease, m: DhcpReply, p: Probe)
    ensures
        d@.chaddr == d.chaddr@,
        d@.tries == d.tries,
        d@.attempt == d.attempt,
        d@.phase == d.phase@,
        d.hostname matches Some(h) ==> d@.hostname == Some(h@),
        d.hostname is None ==> d@.hostname is None,
        Phase::Idle@ == PhaseView::Idle,
        (Phase::Selecting { xid: x })@ == (PhaseView::Selecting { xid: x }),
        (Phase::Requesting { xid: x, server: a })@ == (PhaseView::Requesting {
            xid: x,
            server: a,
        }),
        (Phase::Probing { xid: x, lease })@ == (PhaseView::Probing { xid: x, lease: lease@ }),
        Phase::Done@ == PhaseView::Done,
        Event::Id(x)@ == EventView::Id(x),
        Event::Answer(m)@ == EventView::Answer(m@),
        Event::NoAnswer@ == EventView::NoAnswer,
        Event::Probed(p)@ == EventView::Probed(p),
{
}

/// The views of what the client does leave nothing out.
pub proof fn law_dora_action_views(x: u32, a: Ipv4Addr, bytes: Vec<u8>, w: Setback, lease: Lease)
    ensures
        Action::Discover(x, bytes)@ == ActionView::Discover(x, bytes@),
        Action::Request(x, bytes)@ == ActionView::Request(x, bytes@),
        Action::Probe(a)@ == ActionView::Probe(a),
        Action::Retry(w)@ == ActionView::Retry(w),
        Action::Decline(a, bytes)@ == ActionView::Decline(a, bytes@),
        Action::Bind(lease)@ == ActionView::Bind(lease@),
        Action::GiveUp@ == ActionView::GiveUp,
        Action::Ignore@ == ActionView::Ignore,
{
}

/// Whatever lease is being probed, only a conflict turns it down: then a decline that names the
/// lease's address and server goes out and the next attempt may start. Otherwise the lease is
/// bound as it stands.
pub proof fn law_probe_decides(s: DoraView, xid: u32, lease: LeaseView, probe: Probe)
    requires
        s.phase == (PhaseView::Probing { xid, lease }),
    ensures
        probe is Conflict ==> dora_next(s, EventView::Probed(probe)) == (
            DoraView { phase: PhaseView::Idle, ..s },
            ActionView::Decline(
                lease.ip,
                packet(
                    broadcast_header(xid, s.chaddr),
                    decline_options(s.chaddr, lease.ip, lease.server),
                ),
            ),
        ),
        probe !is Conflict ==> dora_next(s, EventView::Probed(probe)) == (
            DoraView { phase: PhaseView::Done, ..s },
            ActionView::Bind(lease),
        ),
{
}

} // verus!
