use rlease::addr::Ipv4Addr;
use rlease::apply::{
    apply_step, bring_up_args, delete_route_args, failure_text, flush_args, script_args, script_env,
    script_failure_text, ApplyAction, ApplyPhase,
};
use rlease::args::parse_args;
use rlease::dora::{give_up_text, judge_probe, Action, Dora, Event, Phase, Probe, Setback, Verdict};
use rlease::lease::{read_lease, write_lease, Lease};
use rlease::link::device_name_error_text;
use rlease::reboot::{
    check_saved, conflict_text, reboot_error_text, saved_error_text, Reboot, RebootAction,
    RebootError, RebootPhase, SavedError,
};
use rlease::renew::{KeepAction, KeepEvent, KeepPhase, Keeper, Now};
use rlease::reply::{timeout_text, DhcpReply, Reply};
use rlease::request::{
    decline_packet, discover_packet, init_reboot_packet, release_packet, renew_packet,
    request_packet,
};
use rlease::session::Task;
use rlease::teardown::{Teardown, TeardownAction};

fn chaddr() -> Vec<u8> {
    vec![2, 0, 0, 0, 0, 1]
}

fn addr(last: u8) -> Ipv4Addr {
    Ipv4Addr::new(10, 0, 2, last)
}

fn reply(yiaddr: Ipv4Addr, server: Option<Ipv4Addr>) -> Reply {
    Reply {
        yiaddr,
        server,
        subnet: None,
        routers: vec![addr(1)],
        dns: vec![],
        lease_secs: None,
        t1_secs: None,
        t2_secs: None,
    }
}

fn offer() -> Event {
    Event::Answer(DhcpReply::Offer(reply(addr(15), Some(addr(2)))))
}

fn ack() -> Event {
    Event::Answer(DhcpReply::Ack(reply(addr(15), None)))
}

fn lease() -> Lease {
    Lease {
        ip: addr(15),
        prefix: 24,
        routers: vec![addr(2)],
        dns: vec![Ipv4Addr::new(1, 1, 1, 1), Ipv4Addr::new(9, 9, 9, 9)],
        server: addr(2),
        lease_secs: 1000,
        t1_secs: 500,
        t2_secs: 875,
    }
}

fn dora(tries: u32) -> Dora {
    Dora::new(chaddr(), Some("box".to_string()), tries)
}

fn probing() -> Dora {
    let (d, _) = dora(2).step(Event::Id(7));
    let (d, _) = d.step(offer());
    d.step(ack()).0
}

#[test]
fn dora_runs_from_discover_to_bind() {
    let (d, a) = dora(1).step(Event::Id(7));
    match a {
        Action::Discover(7, bytes) => {
            assert_eq!(bytes, discover_packet(7, &chaddr(), Some("box")));
        }
        _ => panic!("expected a discover"),
    }
    let (d, a) = d.step(offer());
    match a {
        Action::Request(7, bytes) => assert_eq!(
            bytes,
            request_packet(7, &chaddr(), addr(15), addr(2), Some("box"))
        ),
        _ => panic!("expected a request"),
    }
    let (d, a) = d.step(ack());
    assert!(matches!(a, Action::Probe(ip) if ip == addr(15)));
    let (d, a) = d.step(Event::Probed(Probe::Clear));
    match a {
        Action::Bind(l) => {
            assert_eq!((l.ip, l.prefix, l.server), (addr(15), 24, addr(2)));
            assert_eq!(l.routers, vec![addr(1)]);
            assert_eq!((l.lease_secs, l.t1_secs, l.t2_secs), (3600, 1800, 3150));
        }
        _ => panic!("expected a bound lease"),
    }
    assert!(matches!(d.phase, Phase::Done));
    assert!(matches!(d.step(Event::Id(8)).1, Action::Ignore));
}

#[test]
fn failed_probe_binds_anyway() {
    assert!(matches!(probing().step(Event::Probed(Probe::Failed)).1, Action::Bind(_)));
}

#[test]
fn conflict_is_declined_and_tried_again() {
    let (d, a) = probing().step(Event::Probed(Probe::Conflict));
    match a {
        Action::Decline(ip, bytes) => {
            assert_eq!(ip, addr(15));
            assert_eq!(bytes, decline_packet(7, &chaddr(), addr(15), addr(2)));
        }
        _ => panic!("expected a decline"),
    }
    let (d, a) = d.step(Event::Id(8));
    assert!(matches!(a, Action::Discover(8, _)));
    assert_eq!(d.attempt, 2);
    let (d, a) = d.step(Event::NoAnswer);
    assert!(matches!(a, Action::Retry(Setback::NoOffer)));
    assert!(matches!(d.step(Event::Id(9)).1, Action::GiveUp));
}

#[test]
fn setbacks_lead_to_another_attempt() {
    let selecting = || dora(9).step(Event::Id(7)).0;
    let requesting = || selecting().step(offer()).0;
    let why = |d: Dora, e: Event| match d.step(e) {
        (d, Action::Retry(why)) => {
            assert!(matches!(d.phase, Phase::Idle));
            why
        }
        _ => panic!("expected a retry"),
    };
    assert_eq!(why(selecting(), Event::Answer(DhcpReply::Nak)), Setback::NakForDiscover);
    assert_eq!(why(selecting(), ack()), Setback::AckForDiscover);
    assert_eq!(why(selecting(), Event::NoAnswer), Setback::NoOffer);
    let anonymous = Event::Answer(DhcpReply::Offer(reply(addr(15), None)));
    assert_eq!(why(selecting(), anonymous), Setback::OfferWithoutServer);
    assert_eq!(why(requesting(), Event::Answer(DhcpReply::Nak)), Setback::NakForRequest);
    assert_eq!(why(requesting(), offer()), Setback::OfferForRequest);
    assert_eq!(why(requesting(), Event::NoAnswer), Setback::NoAck);
}

#[test]
fn tries_bound_the_discovers() {
    for tries in [0, 1, 3] {
        let mut d = dora(tries);
        let mut sent = 0;
        loop {
            let (next, action) = d.step(Event::Id(sent));
            match action {
                Action::Discover(..) => sent += 1,
                Action::GiveUp => break,
                _ => panic!("expected a discover or the end"),
            }
            d = next.step(Event::NoAnswer).0;
        }
        assert_eq!(sent, tries);
    }
}

#[test]
fn unawaited_events_change_nothing() {
    let (d, a) = dora(1).step(Event::NoAnswer);
    assert!(matches!(a, Action::Ignore) && matches!(d.phase, Phase::Idle));
    let (d, a) = probing().step(ack());
    assert!(matches!(a, Action::Ignore) && matches!(d.phase, Phase::Probing { .. }));
}

#[test]
fn only_a_conflict_is_declined() {
    assert!(matches!(judge_probe(Probe::Clear, 1, &chaddr(), lease()), Verdict::Bind(_)));
    assert!(matches!(judge_probe(Probe::Failed, 1, &chaddr(), lease()), Verdict::Bind(_)));
    match judge_probe(Probe::Conflict, 1, &chaddr(), lease()) {
        Verdict::Decline(bytes) => {
            assert_eq!(bytes, decline_packet(1, &chaddr(), addr(15), addr(2)));
        }
        Verdict::Bind(_) => panic!("expected a decline"),
    }
}

#[test]
fn saved_lease_is_checked_for_interface_and_age() {
    assert_eq!(check_saved("eth0", "eth1", 0, 1, 0), Err(SavedError::IfaceMismatch));
    assert_eq!(check_saved("eth1", "eth0", u64::MAX, 1, 0), Err(SavedError::IfaceMismatch));
    assert_eq!(check_saved("eth0", "eth0", 100, 50, 150), Err(SavedError::Expired));
    assert_eq!(check_saved("eth0", "eth0", 100, 50, 149), Ok(()));
}

#[test]
fn reboot_asks_for_the_saved_address() {
    let (r, a) = Reboot::new(chaddr(), None, lease()).step(Event::Id(3));
    match a {
        RebootAction::Request(3, bytes) => {
            assert_eq!(bytes, init_reboot_packet(3, &chaddr(), addr(15), None));
        }
        _ => panic!("expected a request"),
    }
    let bare = Event::Answer(DhcpReply::Ack(reply(Ipv4Addr::new(0, 0, 0, 0), None)));
    let (r, a) = r.step(bare);
    assert!(matches!(a, RebootAction::Probe(ip) if ip == addr(15)));
    let (r, a) = r.step(Event::Probed(Probe::Clear));
    match a {
        RebootAction::Bind(l) => {
            assert_eq!((l.ip, l.server, l.lease_secs), (addr(15), addr(2), 1000));
            assert_eq!((l.t1_secs, l.t2_secs), (500, 875));
        }
        _ => panic!("expected a bound lease"),
    }
    assert!(matches!(r.phase, RebootPhase::Over));
}

#[test]
fn written_lease_is_asked_for_after_a_restart() {
    let text = write_lease("eth0", &lease(), 5000);
    let (iface, saved, since) = read_lease(&text).expect("read");
    assert_eq!(check_saved(&iface, "eth0", since, saved.lease_secs, 5999), Ok(()));
    match Reboot::new(chaddr(), None, saved).step(Event::Id(4)).1 {
        RebootAction::Request(4, bytes) => {
            assert_eq!(bytes, init_reboot_packet(4, &chaddr(), addr(15), None));
        }
        _ => panic!("expected a request"),
    }
}

#[test]
fn reboot_fails_on_other_answers() {
    let asking = || Reboot::new(chaddr(), None, lease()).step(Event::Id(3)).0;
    let why = |e: Event| match asking().step(e).1 {
        RebootAction::Fail(why) => why,
        _ => panic!("expected a failure"),
    };
    assert_eq!(why(Event::Answer(DhcpReply::Nak)), RebootError::Nak);
    assert_eq!(why(offer()), RebootError::Unexpected);
    assert_eq!(why(Event::NoAnswer), RebootError::NoAnswer);
    assert!(matches!(asking().step(Event::Id(1)).1, RebootAction::Ignore));
}

#[test]
fn reboot_conflict_is_declined() {
    let (r, _) = Reboot::new(chaddr(), None, lease()).step(Event::Id(3));
    let (r, _) = r.step(ack());
    match r.step(Event::Probed(Probe::Conflict)).1 {
        RebootAction::Decline(ip, bytes) => {
            assert_eq!(ip, addr(15));
            assert_eq!(bytes, decline_packet(3, &chaddr(), addr(15), addr(2)));
        }
        _ => panic!("expected a decline"),
    }
}

const SECOND: u64 = 1_000_000_000;

fn at(secs: u64, xid: u32) -> Now {
    Now { stop: false, xid, elapsed: secs * SECOND }
}

fn stopping(xid: u32) -> Now {
    Now { stop: true, xid, elapsed: 0 }
}

fn kept_with(list: &[&str]) -> Keeper {
    let argv: Vec<String> = list.iter().map(|s| s.to_string()).collect();
    Keeper::new(chaddr(), parse_args(&argv).expect("arguments"), lease())
}

fn keeper() -> Keeper {
    kept_with(&["-i", "eth0"])
}

fn renewing(k: Keeper) -> Keeper {
    let (k, _) = k.step(KeepEvent::Awake, at(0, 1));
    k.step(KeepEvent::Awake, at(500, 2)).0
}

fn rebinding(k: Keeper) -> Keeper {
    let (k, _) = renewing(k).step(KeepEvent::NoAnswer, at(503, 0));
    k.step(KeepEvent::Awake, at(875, 3)).0
}

fn lost(k: Keeper) -> Keeper {
    rebinding(k).step(KeepEvent::NoAnswer, at(878, 0)).0
}

fn acknowledged(yiaddr: Ipv4Addr, server: Option<Ipv4Addr>) -> KeepEvent {
    KeepEvent::Answer(DhcpReply::Ack(reply(yiaddr, server)))
}

#[test]
fn unanswered_lease_is_renewed_rebound_and_lost() {
    let (k, a) = keeper().step(KeepEvent::Awake, at(2, 1));
    assert!(matches!(a, KeepAction::Sleep(n) if n == 498 * SECOND));
    let (k, a) = k.step(KeepEvent::Awake, at(500, 2));
    match a {
        KeepAction::Renew(2, server, bytes) => {
            assert_eq!(server, addr(2));
            assert_eq!(bytes, renew_packet(2, &chaddr(), &lease(), None));
        }
        _ => panic!("expected a renewal"),
    }
    let (k, a) = k.step(KeepEvent::NoAnswer, at(503, 0));
    assert!(matches!(a, KeepAction::Sleep(n) if n == 372 * SECOND));
    let (k, a) = k.step(KeepEvent::Awake, at(875, 3));
    match a {
        KeepAction::Rebind(3, bytes) => {
            assert_eq!(bytes, renew_packet(3, &chaddr(), &lease(), None));
        }
        _ => panic!("expected a rebinding"),
    }
    let (k, a) = k.step(KeepEvent::Answer(DhcpReply::Nak), at(876, 0));
    assert!(matches!(a, KeepAction::Rediscover));
    let (k, a) = k.step(KeepEvent::NotFound, at(900, 0));
    assert!(matches!(a, KeepAction::Fail));
    assert_eq!(k.phase, KeepPhase::Ended);
    assert!(matches!(k.step(KeepEvent::Awake, stopping(4)).1, KeepAction::Ignore));
}

#[test]
fn rebinding_does_not_wait_where_t2_is_over() {
    let early = Lease { t2_secs: 10, ..lease() };
    let k = Keeper { lease: early, ..keeper() };
    let answer = KeepEvent::Answer(DhcpReply::Offer(reply(addr(15), None)));
    assert!(matches!(renewing(k).step(answer, at(501, 0)).1, KeepAction::Sleep(0)));
    let late = renewing(keeper()).step(KeepEvent::NoAnswer, at(900, 0)).1;
    assert!(matches!(late, KeepAction::Sleep(0)));
}

#[test]
fn acknowledged_renewal_keeps_the_lease_time() {
    let zero = Ipv4Addr::new(0, 0, 0, 0);
    let (k, a) = renewing(keeper()).step(acknowledged(zero, None), at(501, 0));
    assert!(matches!(a, KeepAction::Install { task: Task::Apply, save: false }));
    assert_eq!(k.phase, KeepPhase::Fresh);
    assert_eq!((k.lease.ip, k.lease.server), (addr(15), addr(2)));
    assert_eq!((k.lease.lease_secs, k.lease.t1_secs, k.lease.t2_secs), (1000, 500, 875));
}

#[test]
fn acknowledged_rebinding_takes_the_default_lease_time() {
    let event = acknowledged(addr(16), Some(addr(3)));
    let (k, a) = rebinding(keeper()).step(event, at(876, 0));
    assert!(matches!(a, KeepAction::Install { .. }));
    assert_eq!((k.lease.ip, k.lease.server), (addr(16), addr(3)));
    assert_eq!((k.lease.lease_secs, k.lease.t1_secs, k.lease.t2_secs), (3600, 1800, 3150));
}

#[test]
fn every_replaced_lease_is_installed_as_asked() {
    let scripted = || kept_with(&["-i", "eth0", "-s", "/hook", "-l", "/lease"]);
    let found = Lease { ip: addr(77), ..lease() };
    let (k, a) = lost(scripted()).step(KeepEvent::Found(found), at(900, 0));
    assert_eq!((k.lease.ip, k.phase), (addr(77), KeepPhase::Fresh));
    let b = renewing(scripted()).step(acknowledged(addr(15), None), at(501, 0)).1;
    let c = rebinding(scripted()).step(acknowledged(addr(15), None), at(876, 0)).1;
    for action in [a, b, c] {
        assert!(matches!(
            action,
            KeepAction::Install { task: Task::RunScript, save: true }
        ));
    }
}

#[test]
fn stop_releases_in_every_phase() {
    let bound = keeper().step(KeepEvent::Awake, at(0, 1)).0;
    let unanswered = renewing(keeper()).step(KeepEvent::NoAnswer, at(503, 0)).0;
    for (k, event) in [
        (keeper(), KeepEvent::Awake),
        (bound, KeepEvent::Awake),
        (renewing(keeper()), KeepEvent::NoAnswer),
        (renewing(keeper()), KeepEvent::Answer(DhcpReply::Nak)),
        (unanswered, KeepEvent::Awake),
        (rebinding(keeper()), KeepEvent::NoAnswer),
        (rebinding(keeper()), KeepEvent::Awake),
        (lost(keeper()), KeepEvent::NotFound),
    ] {
        let (k, a) = k.step(event, stopping(9));
        match a {
            KeepAction::Release(server, bytes) => {
                assert_eq!(server, addr(2));
                assert_eq!(bytes, release_packet(9, &chaddr(), &lease()));
            }
            _ => panic!("expected a release"),
        }
        assert_eq!(k.phase, KeepPhase::Ended);
        assert!(matches!(k.step(KeepEvent::Awake, stopping(9)).1, KeepAction::Ignore));
    }
}

#[test]
fn lease_that_comes_with_a_stop_is_installed_and_then_released() {
    let scripted = || kept_with(&["-i", "eth0", "-s", "/hook", "-l", "/lease"]);
    let found = Lease { ip: addr(77), server: addr(7), ..lease() };
    for (k, event, ip, server) in [
        (lost(scripted()), KeepEvent::Found(found), addr(77), addr(7)),
        (renewing(scripted()), acknowledged(addr(16), None), addr(16), addr(2)),
        (rebinding(scripted()), acknowledged(addr(17), Some(addr(3))), addr(17), addr(3)),
    ] {
        let (k, a) = k.step(event, stopping(8));
        assert!(matches!(a, KeepAction::Install { task: Task::RunScript, save: true }));
        assert_eq!((k.phase, k.lease.ip), (KeepPhase::Fresh, ip));
        let released = release_packet(9, &chaddr(), &k.lease);
        let (k, a) = k.step(KeepEvent::Awake, stopping(9));
        match a {
            KeepAction::Release(to, bytes) => {
                assert_eq!(to, server);
                assert_eq!(bytes, released);
            }
            _ => panic!("expected a release"),
        }
        assert_eq!(k.phase, KeepPhase::Ended);
    }
}

fn torn_down(mut t: Teardown, ok: bool) -> Vec<String> {
    let mut shown = vec![];
    loop {
        let (next, action) = t.step(ok);
        t = next;
        shown.push(match action {
            TeardownAction::Send(server, bytes) => format!("send {bytes:?} to {}", server.bits),
            TeardownAction::Run(args) => format!("ip {}", args.join(" ")),
            TeardownAction::RunQuiet(args) => format!("quiet ip {}", args.join(" ")),
            TeardownAction::Remove(path) => format!("rm {path}"),
            TeardownAction::Done => break,
            TeardownAction::Idle => panic!("expected the end"),
        });
    }
    assert!(matches!(t.step(ok).1, TeardownAction::Idle));
    shown
}

#[test]
fn release_takes_everything_down_whatever_fails() {
    let args = |list: &[&str]| {
        let argv: Vec<String> = list.iter().map(|s| s.to_string()).collect();
        parse_args(&argv).expect("arguments")
    };
    let server = Ipv4Addr { bits: 5 };
    let want = [
        "send [1, 2] to 5",
        "ip addr flush dev eth0",
        "quiet ip route del default",
        "rm /lease",
    ];
    for ok in [true, false] {
        let t = Teardown::release(server, vec![1, 2], &args(&["-i", "eth0", "-l", "/lease"]));
        assert_eq!(torn_down(t, ok), want);
        let t = Teardown::release(server, vec![1, 2], &args(&["-i", "eth0"]));
        assert_eq!(torn_down(t, ok), want[..3]);
        assert_eq!(torn_down(Teardown::deconfig("eth0"), ok), want[1..3]);
    }
}

fn run(phase: ApplyPhase, ok: bool, lease: &Lease) -> (ApplyPhase, String) {
    let (next, action) = apply_step(phase, ok, "eth0", lease);
    let shown = match action {
        ApplyAction::Run(args) => format!("ip {}", args.join(" ")),
        ApplyAction::RunQuiet(args) => format!("quiet ip {}", args.join(" ")),
        ApplyAction::Resolve(text) => text,
        ApplyAction::Done => "done".to_string(),
        ApplyAction::Fail => "fail".to_string(),
        ApplyAction::Idle => "idle".to_string(),
    };
    (next, shown)
}

#[test]
fn lease_is_applied_in_order() {
    let lease = lease();
    let mut phase = ApplyPhase::Start;
    let mut shown = vec![];
    for _ in 0..7 {
        let (next, text) = run(phase, true, &lease);
        phase = next;
        shown.push(text);
    }
    assert_eq!(
        shown,
        vec![
            "ip addr flush dev eth0",
            "ip addr add 10.0.2.15/24 dev eth0",
            "ip link set eth0 up",
            "ip route replace default via 10.0.2.2 dev eth0",
            "nameserver 1.1.1.1\nnameserver 9.9.9.9\n",
            "done",
            "idle",
        ]
    );
}

#[test]
fn lease_without_router_and_name_server_skips_the_route() {
    let bare = Lease { routers: vec![], dns: vec![], ..lease() };
    assert_eq!(run(ApplyPhase::Raising, true, &bare), (ApplyPhase::Naming, String::new()));
    assert_eq!(run(ApplyPhase::Deleting, true, &bare), (ApplyPhase::Naming, String::new()));
}

#[test]
fn route_falls_back_to_delete_and_add() {
    let lease = lease();
    let (phase, shown) = run(ApplyPhase::Replacing, false, &lease);
    assert_eq!(shown, "quiet ip route del default");
    let (phase, shown) = run(phase, false, &lease);
    assert_eq!(shown, "ip route add default via 10.0.2.2 dev eth0");
    assert_eq!(run(phase, true, &lease).0, ApplyPhase::Naming);
}

#[test]
fn failures_that_matter_end_the_work() {
    let lease = lease();
    assert_eq!(run(ApplyPhase::Flushing, false, &lease).0, ApplyPhase::Adding);
    for phase in [
        ApplyPhase::Adding,
        ApplyPhase::Raising,
        ApplyPhase::Routing,
        ApplyPhase::Naming,
    ] {
        assert_eq!(run(phase, false, &lease), (ApplyPhase::End, "fail".to_string()));
    }
}

#[test]
fn commands_have_their_arguments() {
    assert_eq!(flush_args("e"), vec!["addr", "flush", "dev", "e"]);
    assert_eq!(bring_up_args("lo"), vec!["link", "set", "lo", "up"]);
    assert_eq!(delete_route_args(), vec!["route", "del", "default"]);
    assert_eq!(
        failure_text("ip", &bring_up_args("lo")),
        "ip link set lo up failed"
    );
    assert_eq!(failure_text("ip", &vec![]), "ip  failed");
}

#[test]
fn errors_have_their_words() {
    assert_eq!(give_up_text("eth0", 8), "dhcp failed on eth0 after 8 tries");
    assert_eq!(saved_error_text(SavedError::IfaceMismatch), "lease iface mismatch");
    assert_eq!(saved_error_text(SavedError::Expired), "lease expired");
    assert_eq!(reboot_error_text(RebootError::Nak), Some("init-reboot nak"));
    assert_eq!(
        reboot_error_text(RebootError::Unexpected),
        Some("init-reboot unexpected reply")
    );
    assert_eq!(reboot_error_text(RebootError::NoAnswer), None);
    assert_eq!(conflict_text(), "arp conflict");
    assert_eq!(timeout_text(), "dhcp recv timeout");
    assert_eq!(device_name_error_text(), "iface name to long");
    assert_eq!(script_failure_text("/hook"), "script /hook failed");
}

#[test]
fn script_is_told_that_the_lease_is_bound() {
    assert_eq!(script_args(), vec!["bound"]);
}

#[test]
fn script_finds_the_lease_in_its_environment() {
    let env = script_env("eth0", &lease());
    let want = [
        ("interface", "eth0"),
        ("ip", "10.0.2.15"),
        ("subnet", "255.255.255.0"),
        ("mask", "24"),
        ("router", "10.0.2.2"),
        ("dns", "1.1.1.1 9.9.9.9"),
    ];
    assert_eq!(env.len(), want.len());
    for (got, want) in env.iter().zip(want) {
        assert_eq!((got.0, got.1.as_str()), want);
    }
}
