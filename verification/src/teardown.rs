//! Taking a lease out of effect: the release, the interface's configuration and the lease file.

use crate::addr::Ipv4Addr;
use crate::apply::{delete_route, delete_route_args, flush, flush_args};
use crate::args::{argument_texts, Args, ArgsView};
use crate::text::text_view;
use vstd::prelude::*;
use vstd::string::*;

verus! {

/// How far a lease is out of effect.
#[derive(Clone, Copy, Debug, PartialEq, Eq, Structural)]
pub enum TeardownPhase {
    /// Nothing was done yet.
    Start,
    /// The release was to be sent.
    Sending,
    /// The addresses were to be removed.
    Flushing,
    /// The default route was to be deleted.
    Unrouting,
    /// The lease file was to be removed.
    Removing,
    /// All is done.
    End,
}

/// What there is to take down: a release to send to a server, the configuration of an interface,
/// and a lease file.
pub struct Teardown {
    pub release: Option<(Ipv4Addr, Vec<u8>)>,
    pub iface: String,
    pub lease_path: Option<String>,
    pub phase: TeardownPhase,
}

/// What a [`Teardown`] stands for.
#[verifier::ext_equal]
pub ghost struct TeardownView {
    pub release: Option<(Ipv4Addr, Seq<u8>)>,
    pub iface: Seq<char>,
    pub lease_path: Option<Seq<char>>,
    pub phase: TeardownPhase,
}

impl View for Teardown {
    type V = TeardownView;

    open spec fn view(&self) -> TeardownView {
        TeardownView {
            release: match self.release {
                Some((server, bytes)) => Some((server, bytes@)),
                None => None,
            },
            iface: self.iface@,
            lease_path: text_view(self.lease_path),
            phase: self.phase,
        }
    }
}

/// What to do next.
pub enum TeardownAction {
    /// Send the bytes to the server.
    Send(Ipv4Addr, Vec<u8>),
    /// Run the network program with these arguments.
    Run(Vec<String>),
    /// Run the network program with these arguments, without input and output.
    RunQuiet(Vec<String>),
    /// Remove the file.
    Remove(String),
    /// All is done.
    Done,
    /// Nothing: it was all over before.
    Idle,
}

/// What a [`TeardownAction`] stands for.
#[verifier::ext_equal]
pub ghost enum TeardownActionView {
    Send(Ipv4Addr, Seq<u8>),
    Run(Seq<Seq<char>>),
    RunQuiet(Seq<Seq<char>>),
    Remove(Seq<char>),
    Done,
    Idle,
}

impl View for TeardownAction {
    type V = TeardownActionView;

    open spec fn view(&self) -> TeardownActionView {
        match self {
            TeardownAction::Send(server, bytes) => TeardownActionView::Send(*server, bytes@),
            TeardownAction::Run(args) => TeardownActionView::Run(argument_texts(args@)),
            TeardownAction::RunQuiet(args) => TeardownActionView::RunQuiet(argument_texts(args@)),
            TeardownAction::Remove(path) => TeardownActionView::Remove(path@),
            TeardownAction::Done => TeardownActionView::Done,
            TeardownAction::Idle => TeardownActionView::Idle,
        }
    }
}

/// What there is to take down when a lease is given back to `server` by `bytes`.
pub open spec fn release_start(server: Ipv4Addr, bytes: Seq<u8>, args: ArgsView) -> TeardownView {
    TeardownView {
        release: Some((server, bytes)),
        iface: args.iface,
        lease_path: args.lease_path,
        phase: TeardownPhase::Start,
    }
}

/// What there is to take down when the lease on `iface` is lost: the configuration alone.
pub open spec fn deconfig_start(iface: Seq<char>) -> TeardownView {
    TeardownView { release: None, iface, lease_path: None, phase: TeardownPhase::Start }
}

/// What follows once what the phase stands for was done. Whether it was done well (`ok`) does not
/// matter.
pub open spec fn teardown_next(s: TeardownView, ok: bool) -> (TeardownView, TeardownActionView) {
    let to = |phase: TeardownPhase| TeardownView { phase, ..s };
    let flushing = (to(TeardownPhase::Flushing), TeardownActionView::Run(flush(s.iface)));
    match s.phase {
        TeardownPhase::Start => match s.release {
            Some((server, bytes)) => (
                to(TeardownPhase::Sending),
                TeardownActionView::Send(server, bytes),
            ),
            None => flushing,
        },
        TeardownPhase::Sending => flushing,
        TeardownPhase::Flushing => (
            to(TeardownPhase::Unrouting),
            TeardownActionView::RunQuiet(delete_route()),
        ),
        TeardownPhase::Unrouting => match s.lease_path {
            Some(path) => (to(TeardownPhase::Removing), TeardownActionView::Remove(path)),
            None => (to(TeardownPhase::End), TeardownActionView::Done),
        },
        TeardownPhase::Removing => (to(TeardownPhase::End), TeardownActionView::Done),
        TeardownPhase::End => (s, TeardownActionView::Idle),
    }
}

impl Teardown {
    /// What there is to take down when a lease is given back to `server` by `bytes`.
    pub fn release(server: Ipv4Addr, bytes: Vec<u8>, args: &Args) -> (r: Teardown)
        ensures
            r@ == release_start(server, bytes@, args@),
    {
        let lease_path: Option<String> = match &args.lease_path {
            Some(path) => Some(path.clone()),
            None => None,
        };
        Teardown {
            release: Some((server, bytes)),
            iface: args.iface.clone(),
            lease_path,
            phase: TeardownPhase::Start,
        }
    }

    /// What there is to take down when the lease on `iface` is lost.
    pub fn deconfig(iface: &str) -> (r: Teardown)
        ensures
            r@ == deconfig_start(iface@),
    {
        Teardown {
            release: None,
            iface: iface.to_owned(),
            lease_path: None,
            phase: TeardownPhase::Start,
        }
    }

    fn flushing(self) -> (r: (Teardown, TeardownAction))
        ensures
            r.0@ == (TeardownView { phase: TeardownPhase::Flushing, ..self@ }),
            r.1@ == TeardownActionView::Run(flush(self@.iface)),
    {
        let args: Vec<String> = flush_args(self.iface.as_str());
        (Teardown { phase: TeardownPhase::Flushing, ..self }, TeardownAction::Run(args))
    }

    /// What follows once what the phase stands for was done, well or not (`ok`).
    pub fn step(self, ok: bool) -> (r: (Teardown, TeardownAction))
        ensures
            (r.0@, r.1@) == teardown_next(self@, ok),
    {
        match self.phase {
            TeardownPhase::Start => {
                let sent: Option<(Ipv4Addr, Vec<u8>)> = match &self.release {
                    Some((server, bytes)) => Some((*server, bytes.clone())),
                    None => None,
                };
                match sent {
                    Some((server, bytes)) => (
                        Teardown { phase: TeardownPhase::Sending, ..self },
                        TeardownAction::Send(server, bytes),
                    ),
                    None => self.flushing(),
                }
            },
            TeardownPhase::Sending => self.flushing(),
            TeardownPhase::Flushing => (
                Teardown { phase: TeardownPhase::Unrouting, ..self },
                TeardownAction::RunQuiet(delete_route_args()),
            ),
            TeardownPhase::Unrouting => {
                let removed: Option<String> = match &self.lease_path {
                    Some(path) => Some(path.clone()),
                    None => None,
                };
                match removed {
                    Some(path) => (
                        Teardown { phase: TeardownPhase::Removing, ..self },
                        TeardownAction::Remove(path),
                    ),
                    None => (
                        Teardown { phase: TeardownPhase::End, ..self },
                        TeardownAction::Done,
                    ),
                }
            },
            TeardownPhase::Removing => (
                Teardown { phase: TeardownPhase::End, ..self },
                TeardownAction::Done,
            ),
            TeardownPhase::End => (self, TeardownAction::Idle),
        }
    }
}

/// When a lease is given back, the release is sent, the addresses of the interface are removed, the
/// default route is deleted and the lease file is removed where one is named, in this order and
/// whatever fails.
pub proof fn law_release_in_order(
    server: Ipv4Addr,
    bytes: Seq<u8>,
    args: ArgsView,
    a: bool,
    b: bool,
    c: bool,
    d: bool,
    e: bool,
)
    ensures
        ({
            let (s1, a1) = teardown_next(release_start(server, bytes, args), a);
            let (s2, a2) = teardown_next(s1, b);
            let (s3, a3) = teardown_next(s2, c);
            let (s4, a4) = teardown_next(s3, d);
            let (s5, a5) = teardown_next(s4, e);
            &&& a1 == TeardownActionView::Send(server, bytes)
            &&& a2 == TeardownActionView::Run(flush(args.iface))
            &&& a3 == TeardownActionView::RunQuiet(delete_route())
            &&& match args.lease_path {
                Some(path) => a4 == TeardownActionView::Remove(path) && a5 is Done,
                None => a4 is Done,
            }
        }),
{
}

/// When a lease is lost, the addresses of the interface are removed and the default route is
/// deleted, whatever fails; nothing is sent and no file is removed.
pub proof fn law_deconfig_in_order(iface: Seq<char>, a: bool, b: bool, c: bool)
    ensures
        ({
            let (s1, a1) = teardown_next(deconfig_start(iface), a);
            let (s2, a2) = teardown_next(s1, b);
            let (s3, a3) = teardown_next(s2, c);
            &&& a1 == TeardownActionView::Run(flush(iface))
            &&& a2 == TeardownActionView::RunQuiet(delete_route())
            &&& a3 is Done
        }),
{
}

/// The views of what there is to take down, and to do, leave nothing out.
pub proof fn law_teardown_views(t: Teardown, to: Ipv4Addr, bytes: Vec<u8>, a: Vec<String>, p: String)
    ensures
        t.release matches Some((server, sent)) ==> t@.release == Some((server, sent@)),
        t.release is None ==> t@.release is None,
        t@.iface == t.iface@,
        t.lease_path matches Some(path) ==> t@.lease_path == Some(path@),
        t.lease_path is None ==> t@.lease_path is None,
        t@.phase == t.phase,
        TeardownAction::Send(to, bytes)@ == TeardownActionView::Send(to, bytes@),
        TeardownAction::Run(a)@ == TeardownActionView::Run(argument_texts(a@)),
        TeardownAction::RunQuiet(a)@ == TeardownActionView::RunQuiet(argument_texts(a@)),
        TeardownAction::Remove(p)@ == TeardownActionView::Remove(p@),
        TeardownAction::Done@ == TeardownActionView::Done,
        TeardownAction::Idle@ == TeardownActionView::Idle,
{
}

/// No step changes what there is to take down, and none depends on whether the last one succeeded.
pub proof fn law_teardown_goes_on(s: TeardownView)
    ensures
        teardown_next(s, true) == teardown_next(s, false),
        teardown_next(s, true).0.release == s.release,
        teardown_next(s, true).0.iface == s.iface,
        teardown_next(s, true).0.lease_path == s.lease_path,
        s.phase is End ==> teardown_next(s, true) == (s, TeardownActionView::Idle),
{
}

/// What each step of a teardown does, whatever came before it.
pub proof fn law_teardown_steps(s: TeardownView, ok: bool)
    ensures
        ({
            let (next, action) = teardown_next(s, ok);
            match s.phase {
                TeardownPhase::Start => match s.release {
                    Some((server, bytes)) => next.phase is Sending && action
                        == TeardownActionView::Send(server, bytes),
                    None => next.phase is Flushing && action == TeardownActionView::Run(
                        flush(s.iface),
                    ),
                },
                TeardownPhase::Sending => next.phase is Flushing && action
                    == TeardownActionView::Run(flush(s.iface)),
                TeardownPhase::Flushing => next.phase is Unrouting && action
                    == TeardownActionView::RunQuiet(delete_route()),
                TeardownPhase::Unrouting => match s.lease_path {
                    Some(path) => next.phase is Removing && action == TeardownActionView::Remove(
                        path,
                    ),
                    None => next.phase is End && action is Done,
                },
                TeardownPhase::Removing => next.phase is End && action is Done,
                TeardownPhase::End => next == s && action is Idle,
            }
        }),
{
}

/// What a teardown starts with.
pub proof fn law_teardown_starts(server: Ipv4Addr, bytes: Seq<u8>, args: ArgsView)
    ensures
        ({
            let release = release_start(server, bytes, args);
            let deconfig = deconfig_start(args.iface);
            &&& release.release == Some((server, bytes)) && release.phase is Start
            &&& release.iface == args.iface && release.lease_path == args.lease_path
            &&& deconfig.release is None && deconfig.phase is Start
            &&& deconfig.iface == args.iface && deconfig.lease_path is None
        }),
{
}

} // verus!
