//! Keeping a lease: renewal, rebinding, discovery anew, and release.

use crate::addr::{ones, Ipv4Addr};
use crate::args::{Args, ArgsView};
use crate::lease::{Lease, LeaseView, DEFAULT_LEASE_SECS};
use crate::reply::{
    granted, law_acknowledged_lease, lease_from, DhcpReply, DhcpReplyView, ReplyView,
};
use crate::request::{
    client_header, name_of, packet, release_options, release_packet, renew_options, renew_packet,
};
use crate::session::{apply_task, install_task, Task};
use crate::text::text_view;
use vstd::prelude::*;
use vstd::string::*;

verus! {

/// How many nanoseconds a second has.
pub const SECOND_NANOS: u64 = 1_000_000_000;

/// What the client is doing.
#[derive(Clone, Copy, Debug, PartialEq, Eq, Structural)]
pub enum KeepPhase {
    /// A lease was just installed.
    Fresh,
    /// Sleeping until the renewal.
    Bound,
    /// Waiting for the server's answer to the renewal with the id.
    Renewing { xid: u32 },
    /// Sleeping until the rebinding.
    Unanswered,
    /// Waiting for any server's answer to the renewal with the id.
    Rebinding { xid: u32 },
    /// Looking for another lease.
    Lost,
    /// The end.
    Ended,
}

/// The client while it keeps `lease`.
pub struct Keeper {
    pub chaddr: Vec<u8>,
    pub args: Args,
    pub lease: Lease,
    pub phase: KeepPhase,
}

/// What a [`Keeper`] stands for.
#[verifier::ext_equal]
pub ghost struct KeeperView {
    pub chaddr: Seq<u8>,
    pub args: ArgsView,
    pub lease: LeaseView,
    pub phase: KeepPhase,
}

impl View for Keeper {
    type V = KeeperView;

    open spec fn view(&self) -> KeeperView {
        KeeperView {
            chaddr: self.chaddr@,
            args: self.args@,
            lease: self.lease@,
            phase: self.phase,
        }
    }
}

/// What has happened.
pub enum KeepEvent {
    /// A sleep is over, or the client has just installed its lease.
    Awake,
    /// The awaited answer came.
    Answer(DhcpReply),
    /// No answer came.
    NoAnswer,
    /// Another lease was found.
    Found(Lease),
    /// No other lease was found.
    NotFound,
}

/// What a [`KeepEvent`] stands for.
#[verifier::ext_equal]
pub ghost enum KeepEventView {
    Awake,
    Answer(DhcpReplyView),
    NoAnswer,
    Found(LeaseView),
    NotFound,
}

impl View for KeepEvent {
    type V = KeepEventView;

    open spec fn view(&self) -> KeepEventView {
        match self {
            KeepEvent::Awake => KeepEventView::Awake,
            KeepEvent::Answer(reply) => KeepEventView::Answer(reply@),
            KeepEvent::NoAnswer => KeepEventView::NoAnswer,
            KeepEvent::Found(lease) => KeepEventView::Found(lease@),
            KeepEvent::NotFound => KeepEventView::NotFound,
        }
    }
}

/// How things stand when something has happened.
#[derive(Clone, Copy, Debug, PartialEq, Eq, Structural)]
pub struct Now {
    /// Whether the client must stop.
    pub stop: bool,
    /// A transaction id that was drawn.
    pub xid: u32,
    /// How many nanoseconds ago the lease was obtained.
    pub elapsed: u64,
}

/// What to do next.
pub enum KeepAction {
    /// Sleep for so many nanoseconds, or until the client must stop.
    Sleep(u64),
    /// Send the bytes to the server, and wait for the answer with the id.
    Renew(u32, Ipv4Addr, Vec<u8>),
    /// Send the bytes to all, and wait for the answer with the id.
    Rebind(u32, Vec<u8>),
    /// Put the lease that the client now keeps into effect by the task and, where `save` says so,
    /// save it. That either fails does not matter.
    Install { task: Task, save: bool },
    /// Take the configuration down and look for another lease.
    Rediscover,
    /// Send the bytes to the server, take the configuration down and end well.
    Release(Ipv4Addr, Vec<u8>),
    /// End with an error.
    Fail,
    /// Nothing: the event is none that was awaited.
    Ignore,
}

/// What a [`KeepAction`] stands for.
#[verifier::ext_equal]
pub ghost enum KeepActionView {
    Sleep(u64),
    Renew(u32, Ipv4Addr, Seq<u8>),
    Rebind(u32, Seq<u8>),
    Install { task: Task, save: bool },
    Rediscover,
    Release(Ipv4Addr, Seq<u8>),
    Fail,
    Ignore,
}

impl View for KeepAction {
    type V = KeepActionView;

    open spec fn view(&self) -> KeepActionView {
        match self {
            KeepAction::Sleep(nanos) => KeepActionView::Sleep(*nanos),
            KeepAction::Renew(xid, server, bytes) => KeepActionView::Renew(*xid, *server, bytes@),
            KeepAction::Rebind(xid, bytes) => KeepActionView::Rebind(*xid, bytes@),
            KeepAction::Install { task, save } => KeepActionView::Install {
                task: *task,
                save: *save,
            },
            KeepAction::Rediscover => KeepActionView::Rediscover,
            KeepAction::Release(server, bytes) => KeepActionView::Release(*server, bytes@),
            KeepAction::Fail => KeepActionView::Fail,
            KeepAction::Ignore => KeepActionView::Ignore,
        }
    }
}

/// The bytes that ask for more time for `lease`.
pub open spec fn renewal_of(
    xid: u32,
    chaddr: Seq<u8>,
    lease: LeaseView,
    hostname: Option<Seq<char>>,
) -> Seq<u8> {
    packet(client_header(xid, chaddr, 0, lease.ip), renew_options(chaddr, hostname))
}

/// The bytes that give `lease` back.
pub open spec fn release_of(xid: u32, chaddr: Seq<u8>, lease: LeaseView) -> Seq<u8> {
    packet(client_header(xid, chaddr, 0, lease.ip), release_options(chaddr, lease.server))
}

/// How many nanoseconds are left until `secs` seconds have gone by, of which `elapsed` nanoseconds
/// have.
pub open spec fn until(secs: u32, elapsed: u64) -> u64 {
    if elapsed < secs * SECOND_NANOS {
        (secs * SECOND_NANOS - elapsed) as u64
    } else {
        0
    }
}

/// The client once it keeps `lease`, and how it puts it into effect: as the command line asks.
pub open spec fn installed(s: KeeperView, lease: LeaseView) -> (KeeperView, KeepActionView) {
    (
        KeeperView { lease, phase: KeepPhase::Fresh, ..s },
        KeepActionView::Install { task: apply_task(s.args), save: s.args.lease_path is Some },
    )
}

/// The client after an event while it need not stop, and what it does about it.
pub open spec fn advance(s: KeeperView, event: KeepEventView, now: Now) -> (
    KeeperView,
    KeepActionView,
) {
    let to = |phase: KeepPhase| KeeperView { phase, ..s };
    let rebind_later = (
        to(KeepPhase::Unanswered),
        KeepActionView::Sleep(until(s.lease.t2_secs, now.elapsed)),
    );
    match (s.phase, event) {
        (KeepPhase::Fresh, KeepEventView::Awake) => (
            to(KeepPhase::Bound),
            KeepActionView::Sleep(until(s.lease.t1_secs, now.elapsed)),
        ),
        (KeepPhase::Bound, KeepEventView::Awake) => (
            to(KeepPhase::Renewing { xid: now.xid }),
            KeepActionView::Renew(
                now.xid,
                s.lease.server,
                renewal_of(now.xid, s.chaddr, s.lease, s.args.hostname),
            ),
        ),
        (KeepPhase::Renewing { xid }, KeepEventView::Answer(DhcpReplyView::Ack(m))) => installed(
            s,
            granted(m, Some(s.lease.ip), s.lease.server, s.lease.lease_secs),
        ),
        (KeepPhase::Renewing { xid }, KeepEventView::Answer(_)) => rebind_later,
        (KeepPhase::Renewing { xid }, KeepEventView::NoAnswer) => rebind_later,
        (KeepPhase::Unanswered, KeepEventView::Awake) => (
            to(KeepPhase::Rebinding { xid: now.xid }),
            KeepActionView::Rebind(
                now.xid,
                renewal_of(now.xid, s.chaddr, s.lease, s.args.hostname),
            ),
        ),
        (KeepPhase::Rebinding { xid }, KeepEventView::Answer(DhcpReplyView::Ack(m))) => installed(
            s,
            granted(m, Some(s.lease.ip), s.lease.server, DEFAULT_LEASE_SECS),
        ),
        (KeepPhase::Rebinding { xid }, KeepEventView::Answer(_)) => (
            to(KeepPhase::Lost),
            KeepActionView::Rediscover,
        ),
        (KeepPhase::Rebinding { xid }, KeepEventView::NoAnswer) => (
            to(KeepPhase::Lost),
            KeepActionView::Rediscover,
        ),
        (KeepPhase::Lost, KeepEventView::Found(lease)) => installed(s, lease),
        (KeepPhase::Lost, KeepEventView::NotFound) => (to(KeepPhase::Ended), KeepActionView::Fail),
        _ => (s, KeepActionView::Ignore),
    }
}

/// The client after an event, and what it does about it. A client that must stop gives its lease
/// back, whatever it was doing. Only a lease that has just come is installed first: the client is
/// told when that is done, and gives the lease back then.
pub open spec fn keep_next(s: KeeperView, event: KeepEventView, now: Now) -> (
    KeeperView,
    KeepActionView,
) {
    let (next, action) = advance(s, event, now);
    if now.stop && !(s.phase is Ended) && !(action is Install) {
        (
            KeeperView { phase: KeepPhase::Ended, ..next },
            KeepActionView::Release(
                next.lease.server,
                release_of(now.xid, next.chaddr, next.lease),
            ),
        )
    } else {
        (next, action)
    }
}

fn time_left(secs: u32, elapsed: u64) -> (r: u64)
    ensures
        r == until(secs, elapsed),
{
    let end: u64 = secs as u64 * SECOND_NANOS;
    if elapsed < end {
        end - elapsed
    } else {
        0
    }
}

impl Keeper {
    /// The client once `lease` is installed.
    pub fn new(chaddr: Vec<u8>, args: Args, lease: Lease) -> (r: Keeper)
        ensures
            r@ == (KeeperView {
                chaddr: chaddr@,
                args: args@,
                lease: lease@,
                phase: KeepPhase::Fresh,
            }),
    {
        Keeper { chaddr, args, lease, phase: KeepPhase::Fresh }
    }

    fn renewal(&self, xid: u32) -> (r: Vec<u8>)
        ensures
            r@ == renewal_of(xid, self@.chaddr, self@.lease, self@.args.hostname),
    {
        let name: Option<&str> = match &self.args.hostname {
            Some(h) => Some(h.as_str()),
            None => None,
        };
        proof {
            assert(name_of(name) == text_view(self.args.hostname));
        }
        renew_packet(xid, self.chaddr.as_slice(), &self.lease, name)
    }

    fn install(self, lease: Lease) -> (r: (Keeper, KeepAction))
        ensures
            (r.0@, r.1@) == installed(self@, lease@),
    {
        let task: Task = install_task(&self.args);
        let save: bool = self.args.lease_path.is_some();
        (
            Keeper { lease, phase: KeepPhase::Fresh, ..self },
            KeepAction::Install { task, save },
        )
    }

    fn rebind_later(self, elapsed: u64) -> (r: (Keeper, KeepAction))
        ensures
            r.0@ == (KeeperView { phase: KeepPhase::Unanswered, ..self@ }),
            r.1@ == KeepActionView::Sleep(until(self@.lease.t2_secs, elapsed)),
    {
        let wait: u64 = time_left(self.lease.t2_secs, elapsed);
        (Keeper { phase: KeepPhase::Unanswered, ..self }, KeepAction::Sleep(wait))
    }

    fn advance(self, event: KeepEvent, now: Now) -> (r: (Keeper, KeepAction))
        ensures
            (r.0@, r.1@) == advance(self@, event@, now),
    {
        let xid: u32 = now.xid;
        match (self.phase, event) {
            (KeepPhase::Fresh, KeepEvent::Awake) => {
                let wait: u64 = time_left(self.lease.t1_secs, now.elapsed);
                (Keeper { phase: KeepPhase::Bound, ..self }, KeepAction::Sleep(wait))
            },
            (KeepPhase::Bound, KeepEvent::Awake) => {
                let bytes: Vec<u8> = self.renewal(xid);
                let server: Ipv4Addr = self.lease.server;
                (
                    Keeper { phase: KeepPhase::Renewing { xid }, ..self },
                    KeepAction::Renew(xid, server, bytes),
                )
            },
            (KeepPhase::Renewing { .. }, KeepEvent::Answer(DhcpReply::Ack(m))) => {
                let lease: Lease = lease_from(
                    m,
                    Some(self.lease.ip),
                    self.lease.server,
                    self.lease.lease_secs,
                );
                self.install(lease)
            },
            (KeepPhase::Renewing { .. }, KeepEvent::Answer(_)) => self.rebind_later(now.elapsed),
            (KeepPhase::Renewing { .. }, KeepEvent::NoAnswer) => self.rebind_later(now.elapsed),
            (KeepPhase::Unanswered, KeepEvent::Awake) => {
                let bytes: Vec<u8> = self.renewal(xid);
                (
                    Keeper { phase: KeepPhase::Rebinding { xid }, ..self },
                    KeepAction::Rebind(xid, bytes),
                )
            },
            (KeepPhase::Rebinding { .. }, KeepEvent::Answer(DhcpReply::Ack(m))) => {
                let lease: Lease = lease_from(
                    m,
                    Some(self.lease.ip),
                    self.lease.server,
                    DEFAULT_LEASE_SECS,
                );
                self.install(lease)
            },
            (KeepPhase::Rebinding { .. }, KeepEvent::Answer(_)) => {
                (Keeper { phase: KeepPhase::Lost, ..self }, KeepAction::Rediscover)
            },
            (KeepPhase::Rebinding { .. }, KeepEvent::NoAnswer) => {
                (Keeper { phase: KeepPhase::Lost, ..self }, KeepAction::Rediscover)
            },
            (KeepPhase::Lost, KeepEvent::Found(lease)) => self.install(lease),
            (KeepPhase::Lost, KeepEvent::NotFound) => {
                (Keeper { phase: KeepPhase::Ended, ..self }, KeepAction::Fail)
            },
            _ => (self, KeepAction::Ignore),
        }
    }

    /// The client after an event, and what it does about it.
    pub fn step(self, event: KeepEvent, now: Now) -> (r: (Keeper, KeepAction))
        ensures
            (r.0@, r.1@) == keep_next(self@, event@, now),
    {
        let ended: bool = self.phase == KeepPhase::Ended;
        let (next, action): (Keeper, KeepAction) = self.advance(event, now);
        let installs: bool = match &action {
            KeepAction::Install { .. } => true,
            _ => false,
        };
        if now.stop && !ended && !installs {
            let bytes: Vec<u8> = release_packet(now.xid, next.chaddr.as_slice(), &next.lease);
            let server: Ipv4Addr = next.lease.server;
            (Keeper { phase: KeepPhase::Ended, ..next }, KeepAction::Release(server, bytes))
        } else {
            (next, action)
        }
    }
}

/// A client that must stop gives its lease back to the server that granted it and ends, whatever
/// it was doing and whatever has happened, unless what has happened is that a lease came.
pub proof fn law_stop_releases(s: KeeperView, event: KeepEventView, now: Now)
    requires
        s.phase !is Ended,
        now.stop,
        advance(s, event, now).1 !is Install,
    ensures
        keep_next(s, event, now) == (
            KeeperView { phase: KeepPhase::Ended, ..s },
            KeepActionView::Release(
                s.lease.server,
                packet(
                    client_header(now.xid, s.chaddr, 0, s.lease.ip),
                    release_options(s.chaddr, s.lease.server),
                ),
            ),
        ),
{
}

/// A lease that comes is installed, must the client stop or not. Once that is done, a client that
/// must stop gives this lease back and ends.
pub proof fn law_stop_after_install(s: KeeperView, event: KeepEventView, now: Now, later: Now)
    requires
        advance(s, event, now).1 is Install,
        later.stop,
    ensures
        ({
            let (next, action) = keep_next(s, event, now);
            &&& (next, action) == advance(s, event, now)
            &&& keep_next(next, KeepEventView::Awake, later) == (
                KeeperView { phase: KeepPhase::Ended, ..next },
                KeepActionView::Release(
                    next.lease.server,
                    packet(
                        client_header(later.xid, s.chaddr, 0, next.lease.ip),
                        release_options(s.chaddr, next.lease.server),
                    ),
                ),
            )
        }),
{
}

/// A lease is given back only when the client must stop, and the client ends only then or when it
/// has lost its lease, has found no other and need not stop.
pub proof fn law_end_has_cause(s: KeeperView, event: KeepEventView, now: Now)
    ensures
        keep_next(s, event, now).1 is Release ==> s.phase !is Ended && now.stop,
        keep_next(s, event, now).1 is Fail ==> s.phase is Lost && event is NotFound && !now.stop,
        s.phase is Ended ==> keep_next(s, event, now) == (s, KeepActionView::Ignore),
{
}

/// The client after `moments`, each an event and how things stood then.
pub open spec fn keep_after(s: KeeperView, moments: Seq<(KeepEventView, Now)>) -> KeeperView
    decreases moments.len(),
{
    if moments.len() == 0 {
        s
    } else {
        keep_next(keep_after(s, moments.drop_last()), moments.last().0, moments.last().1).0
    }
}

/// How often the client has given a lease back, and how often it has failed, in the course of
/// `moments`.
pub open spec fn endings(s: KeeperView, moments: Seq<(KeepEventView, Now)>) -> (nat, nat)
    decreases moments.len(),
{
    if moments.len() == 0 {
        (0, 0)
    } else {
        let (releases, failures) = endings(s, moments.drop_last());
        match keep_next(
            keep_after(s, moments.drop_last()),
            moments.last().0,
            moments.last().1,
        ).1 {
            KeepActionView::Release(_, _) => (releases + 1, failures),
            KeepActionView::Fail => (releases, failures + 1),
            _ => (releases, failures),
        }
    }
}

/// Whether the client had to stop at the `i`th of `moments`, and no lease came then.
pub open spec fn stopped_at(s: KeeperView, moments: Seq<(KeepEventView, Now)>, i: int) -> bool {
    &&& moments[i].1.stop
    &&& keep_next(keep_after(s, moments.take(i)), moments[i].0, moments[i].1).1 !is Install
}

/// Whatever happens, the client ends at most once, by one release or one failure, and it has ended
/// once it had to stop at a moment at which no lease came. Where it did not fail before, that was
/// one release.
pub proof fn law_one_release(s: KeeperView, moments: Seq<(KeepEventView, Now)>)
    requires
        s.phase !is Ended,
    ensures
        ({
            let (releases, failures) = endings(s, moments);
            let ended = keep_after(s, moments).phase is Ended;
            &&& releases + failures == if ended {
                1nat
            } else {
                0nat
            }
            &&& (exists|i: int| 0 <= i < moments.len() && #[trigger] stopped_at(s, moments, i))
                ==> ended
        }),
    decreases moments.len(),
{
    if moments.len() > 0 {
        let before = moments.drop_last();
        law_one_release(s, before);
        law_end_has_cause(keep_after(s, before), moments.last().0, moments.last().1);
        if exists|i: int| 0 <= i < moments.len() && #[trigger] stopped_at(s, moments, i) {
            let i = choose|i: int| 0 <= i < moments.len() && #[trigger] stopped_at(s, moments, i);
            if i < before.len() {
                assert(before.take(i) =~= moments.take(i));
                assert(stopped_at(s, before, i));
            } else {
                assert(moments.take(i) =~= before);
            }
        }
    }
}

/// Whether `event` is an acknowledgement.
pub open spec fn acknowledges(event: KeepEventView) -> bool {
    event matches KeepEventView::Answer(a) && a is Ack
}

/// The client keeps its lease until an acknowledgement or a new discovery replaces it. A lease that
/// replaces it is put into effect as the command line asks, by the hook script where one is named,
/// and saved where a file is named, must the client stop or not.
pub proof fn law_lease_replaced(s: KeeperView, event: KeepEventView, now: Now)
    requires
        keep_next(s, event, now).0.lease != s.lease,
    ensures
        keep_next(s, event, now).1 == (KeepActionView::Install {
            task: if s.args.script is Some {
                Task::RunScript
            } else {
                Task::Apply
            },
            save: s.args.lease_path is Some,
        }),
        ((s.phase is Renewing || s.phase is Rebinding) && acknowledges(event)) || (
        s.phase is Lost && event is Found),
{
}

/// Without an answer a lease is renewed at T1, rebound at T2, and then given up for a new discovery.
/// What the wait for an answer took is taken off the sleep before the rebinding: it goes out when
/// the lease is T2 old, or at once where the lease is older already.
pub proof fn law_unanswered_lease(s: KeeperView, a: Now, b: Now, c: Now, d: Now, e: Now)
    requires
        s.phase is Fresh,
        !a.stop && !b.stop && !c.stop && !d.stop && !e.stop,
    ensures
        ({
            let (s1, a1) = keep_next(s, KeepEventView::Awake, a);
            let (s2, a2) = keep_next(s1, KeepEventView::Awake, b);
            let (s3, a3) = keep_next(s2, KeepEventView::NoAnswer, c);
            let (s4, a4) = keep_next(s3, KeepEventView::Awake, d);
            let (s5, a5) = keep_next(s4, KeepEventView::NoAnswer, e);
            let t1 = s.lease.t1_secs * 1_000_000_000;
            let t2 = s.lease.t2_secs * 1_000_000_000;
            &&& a1 matches KeepActionView::Sleep(first)
            &&& a3 matches KeepActionView::Sleep(second)
            &&& a.elapsed + first == if a.elapsed < t1 {
                t1
            } else {
                a.elapsed as int
            }
            &&& c.elapsed + second == if c.elapsed < t2 {
                t2
            } else {
                c.elapsed as int
            }
            &&& a2 == KeepActionView::Renew(
                b.xid,
                s.lease.server,
                renewal_of(b.xid, s.chaddr, s.lease, s.args.hostname),
            )
            &&& a4 == KeepActionView::Rebind(
                d.xid,
                renewal_of(d.xid, s.chaddr, s.lease, s.args.hostname),
            )
            &&& a5 == KeepActionView::Rediscover
            &&& s5.phase is Lost
        }),
{
}

/// After an acknowledged renewal the client keeps a lease with the lease time that the
/// acknowledgement names, else the old one; T1 and T2 are those that it names, else half and seven
/// eighths of that lease time. Mask, routers and name servers are those of the acknowledgement, the
/// address and the server too where it names them. The lease is installed, by the script where one
/// is named, and saved where a file is named.
pub proof fn law_acknowledged_renewal(s: KeeperView, xid: u32, ack: ReplyView, now: Now)
    requires
        s.phase == (KeepPhase::Renewing { xid }),
    ensures
        ({
            let (next, action) = keep_next(s, KeepEventView::Answer(DhcpReplyView::Ack(ack)), now);
            let lease = next.lease;
            &&& next.phase is Fresh
            &&& next.chaddr == s.chaddr && next.args == s.args
            &&& action == (KeepActionView::Install {
                task: if s.args.script is Some {
                    Task::RunScript
                } else {
                    Task::Apply
                },
                save: s.args.lease_path is Some,
            })
            &&& lease.routers == ack.routers
            &&& lease.dns == ack.dns
            &&& ack.subnet matches Some(mask) ==> lease.prefix == ones(mask.bits as nat)
            &&& ack.subnet is None ==> lease.prefix == 24
            &&& ack.yiaddr.bits != 0 ==> lease.ip == ack.yiaddr
            &&& ack.yiaddr.bits == 0 ==> lease.ip == s.lease.ip
            &&& ack.server matches Some(named) ==> lease.server == named
            &&& ack.server is None ==> lease.server == s.lease.server
            &&& ack.lease_secs matches Some(n) ==> lease.lease_secs == n
            &&& ack.lease_secs is None ==> lease.lease_secs == s.lease.lease_secs
            &&& ack.t1_secs matches Some(n) ==> lease.t1_secs == n
            &&& ack.t1_secs is None ==> lease.t1_secs == lease.lease_secs / 2
            &&& ack.t2_secs matches Some(n) ==> lease.t2_secs == n
            &&& ack.t2_secs is None && lease.lease_secs * 7 <= 0xffff_ffff ==> {
                &&& lease.t2_secs * 8 <= lease.lease_secs * 7
                &&& lease.lease_secs * 7 < (lease.t2_secs + 1) * 8
            }
            &&& ack.t2_secs is None && lease.lease_secs * 7 > 0xffff_ffff ==> lease.t2_secs
                == 0x1fff_ffff
        }),
{
    law_acknowledged_lease(ack, Some(s.lease.ip), s.lease.server, s.lease.lease_secs);
}

/// After an acknowledged rebinding it is the same, but that the lease time is an hour where the
/// acknowledgement names none.
pub proof fn law_acknowledged_rebinding(s: KeeperView, xid: u32, ack: ReplyView, now: Now)
    requires
        s.phase == (KeepPhase::Rebinding { xid }),
    ensures
        ({
            let (next, action) = keep_next(s, KeepEventView::Answer(DhcpReplyView::Ack(ack)), now);
            let lease = next.lease;
            &&& next.phase is Fresh
            &&& next.chaddr == s.chaddr && next.args == s.args
            &&& action == (KeepActionView::Install {
                task: if s.args.script is Some {
                    Task::RunScript
                } else {
                    Task::Apply
                },
                save: s.args.lease_path is Some,
            })
            &&& lease.routers == ack.routers
            &&& lease.dns == ack.dns
            &&& ack.subnet matches Some(mask) ==> lease.prefix == ones(mask.bits as nat)
            &&& ack.subnet is None ==> lease.prefix == 24
            &&& ack.yiaddr.bits != 0 ==> lease.ip == ack.yiaddr
            &&& ack.yiaddr.bits == 0 ==> lease.ip == s.lease.ip
            &&& ack.server matches Some(named) ==> lease.server == named
            &&& ack.server is None ==> lease.server == s.lease.server
            &&& ack.lease_secs matches Some(n) ==> lease.lease_secs == n
            &&& ack.lease_secs is None ==> lease.lease_secs == 3600
            &&& ack.t1_secs matches Some(n) ==> lease.t1_secs == n
            &&& ack.t1_secs is None ==> lease.t1_secs == lease.lease_secs / 2
            &&& ack.t2_secs matches Some(n) ==> lease.t2_secs == n
            &&& ack.t2_secs is None && lease.lease_secs * 7 <= 0xffff_ffff ==> {
                &&& lease.t2_secs * 8 <= lease.lease_secs * 7
                &&& lease.lease_secs * 7 < (lease.t2_secs + 1) * 8
            }
            &&& ack.t2_secs is None && lease.lease_secs * 7 > 0xffff_ffff ==> lease.t2_secs
                == 0x1fff_ffff
        }),
{
    law_acknowledged_lease(ack, Some(s.lease.ip), s.lease.server, DEFAULT_LEASE_SECS);
}

/// A lease that is found anew is kept as it was found, and installed like any other.
pub proof fn law_found_lease_is_kept(s: KeeperView, found: LeaseView, now: Now)
    requires
        s.phase is Lost,
    ensures
        keep_next(s, KeepEventView::Found(found), now) == (
            KeeperView {
                chaddr: s.chaddr,
                args: s.args,
                lease: found,
                phase: KeepPhase::Fresh,
            },
            KeepActionView::Install {
                task: if s.args.script is Some {
                    Task::RunScript
                } else {
                    Task::Apply
                },
                save: s.args.lease_path is Some,
            },
        ),
{
}

/// What is no acknowledgement changes neither the lease nor who the client is. A refused or unfit
/// answer counts like none: to the renewal a sleep up to T2 follows, to the rebinding a new
/// discovery.
pub proof fn law_other_answers_keep_the_lease(
    s: KeeperView,
    xid: u32,
    answer: DhcpReplyView,
    now: Now,
)
    requires
        !now.stop,
        answer !is Ack,
    ensures
        ({
            let heard = KeepEventView::Answer(answer);
            &&& s.phase == (KeepPhase::Renewing { xid }) ==> {
                let (next, action) = keep_next(s, heard, now);
                &&& (next, action) == keep_next(s, KeepEventView::NoAnswer, now)
                &&& next == KeeperView { phase: KeepPhase::Unanswered, ..s }
                &&& action matches KeepActionView::Sleep(nanos)
                &&& now.elapsed < s.lease.t2_secs * 1_000_000_000 ==> now.elapsed + nanos
                    == s.lease.t2_secs * 1_000_000_000
                &&& now.elapsed >= s.lease.t2_secs * 1_000_000_000 ==> nanos == 0
            }
            &&& s.phase == (KeepPhase::Rebinding { xid }) ==> {
                &&& keep_next(s, heard, now) == keep_next(s, KeepEventView::NoAnswer, now)
                &&& keep_next(s, heard, now) == (
                    KeeperView { phase: KeepPhase::Lost, ..s },
                    KeepActionView::Rediscover,
                )
            }
        }),
{
}

/// No step changes the client's hardware address or what the command line asks for, and an event
/// that was not awaited changes nothing while the client need not stop.
pub proof fn law_keeper_stays_itself(s: KeeperView, event: KeepEventView, now: Now)
    ensures
        keep_next(s, event, now).0.chaddr == s.chaddr,
        keep_next(s, event, now).0.args == s.args,
        !now.stop && (match (s.phase, event) {
            (KeepPhase::Fresh, KeepEventView::Awake) => false,
            (KeepPhase::Bound, KeepEventView::Awake) => false,
            (KeepPhase::Unanswered, KeepEventView::Awake) => false,
            (KeepPhase::Renewing { .. }, KeepEventView::Answer(_)) => false,
            (KeepPhase::Renewing { .. }, KeepEventView::NoAnswer) => false,
            (KeepPhase::Rebinding { .. }, KeepEventView::Answer(_)) => false,
            (KeepPhase::Rebinding { .. }, KeepEventView::NoAnswer) => false,
            (KeepPhase::Lost, KeepEventView::Found(_)) => false,
            (KeepPhase::Lost, KeepEventView::NotFound) => false,
            _ => true,
        }) ==> keep_next(s, event, now) == (s, KeepActionView::Ignore),
{
}

/// The renewal and the rebinding carry the transaction id that is then awaited, come from the leased
/// address, and hold the client's identifier and host name; the renewal goes to the server of the
/// lease.
pub proof fn law_renewal_asks_for_the_lease(s: KeeperView, now: Now)
    requires
        !now.stop,
    ensures
        ({
            let (next, action) = keep_next(s, KeepEventView::Awake, now);
            let bytes = packet(
                client_header(now.xid, s.chaddr, 0, s.lease.ip),
                renew_options(s.chaddr, s.args.hostname),
            );
            &&& s.phase is Bound ==> {
                &&& next == KeeperView { phase: KeepPhase::Renewing { xid: now.xid }, ..s }
                &&& action == KeepActionView::Renew(now.xid, s.lease.server, bytes)
            }
            &&& s.phase is Unanswered ==> {
                &&& next == KeeperView { phase: KeepPhase::Rebinding { xid: now.xid }, ..s }
                &&& action == KeepActionView::Rebind(now.xid, bytes)
            }
            &&& s.phase is Fresh ==> {
                &&& next == KeeperView { phase: KeepPhase::Bound, ..s }
                &&& action is Sleep
            }
        }),
{
}

/// A client that has lost its lease, finds no other and need not stop ends with an error.
pub proof fn law_lost_for_good(s: KeeperView, now: Now)
    requires
        s.phase is Lost,
        !now.stop,
    ensures
        keep_next(s, KeepEventView::NotFound, now) == (
            KeeperView { phase: KeepPhase::Ended, ..s },
            KeepActionView::Fail,
        ),
{
}

/// The views of the client and of what happens to it leave nothing out.
pub proof fn law_keeper_views(k: Keeper, reply: DhcpReply, lease: Lease)
    ensures
        k@.chaddr == k.chaddr@,
        k@.args == k.args@,
        k@.lease == k.lease@,
        k@.phase == k.phase,
        KeepEvent::Answer(reply)@ == KeepEventView::Answer(reply@),
        KeepEvent::Found(lease)@ == KeepEventView::Found(lease@),
        KeepEvent::Awake@ == KeepEventView::Awake,
        KeepEvent::NoAnswer@ == KeepEventView::NoAnswer,
        KeepEvent::NotFound@ == KeepEventView::NotFound,
{
}

/// The views of what the client does leave nothing out.
pub proof fn law_keep_action_views(n: u64, x: u32, to: Ipv4Addr, bytes: Vec<u8>, t: Task, b: bool)
    ensures
        KeepAction::Sleep(n)@ == KeepActionView::Sleep(n),
        KeepAction::Renew(x, to, bytes)@ == KeepActionView::Renew(x, to, bytes@),
        KeepAction::Rebind(x, bytes)@ == KeepActionView::Rebind(x, bytes@),
        (KeepAction::Install { task: t, save: b })@ == (KeepActionView::Install {
            task: t,
            save: b,
        }),
        KeepAction::Rediscover@ == KeepActionView::Rediscover,
        KeepAction::Release(to, bytes)@ == KeepActionView::Release(to, bytes@),
        KeepAction::Fail@ == KeepActionView::Fail,
        KeepAction::Ignore@ == KeepActionView::Ignore,
{
}

/// A stop that is seen while the lease is kept ends the keeping with the lease's release, in every
/// phase and on every event but the two that bring another lease: an acknowledgement that was
/// asked for, and a lease that was found after the loss of the last.
pub proof fn law_stop_ends_the_keeping(s: KeeperView, event: KeepEventView, now: Now)
    requires
        now.stop,
        s.phase !is Ended,
        !(s.phase is Lost && event is Found),
        !((s.phase is Renewing || s.phase is Rebinding) && acknowledges(event)),
    ensures
        keep_next(s, event, now) == (
            KeeperView { phase: KeepPhase::Ended, ..s },
            KeepActionView::Release(
                s.lease.server,
                packet(
                    client_header(now.xid, s.chaddr, 0, s.lease.ip),
                    release_options(s.chaddr, s.lease.server),
                ),
            ),
        ),
{
}

} // verus!
