use rlease::addr::Ipv4Addr;
use rlease::lease::{
    default_t1, default_t2, lease_error_text, read_lease, write_lease, Lease, LeaseError,
};

fn lease() -> Lease {
    Lease {
        ip: Ipv4Addr::new(10, 0, 2, 15),
        prefix: 24,
        routers: vec![Ipv4Addr::new(10, 0, 2, 2)],
        dns: vec![Ipv4Addr::new(1, 1, 1, 1), Ipv4Addr::new(9, 9, 9, 9)],
        server: Ipv4Addr::new(10, 0, 2, 2),
        lease_secs: 3600,
        t1_secs: 1800,
        t2_secs: 3150,
    }
}

#[test]
fn lease_file_roundtrip() {
    let lease = lease();
    let text = write_lease("eth0", &lease, 1_700_000_000);
    let (iface, got, obtained) = read_lease(&text).expect("read");
    assert_eq!(iface, "eth0");
    assert_eq!(got.ip, lease.ip);
    assert_eq!(got.prefix, 24);
    assert_eq!(got.server, lease.server);
    assert_eq!(got.routers, lease.routers);
    assert_eq!(got.dns, lease.dns);
    assert_eq!(got.lease_secs, 3600);
    assert!(obtained > 0);
}

#[test]
fn lease_file_text_is_exact() {
    assert_eq!(
        write_lease("eth0", &lease(), 17),
        "iface=eth0\nip=10.0.2.15\nprefix=24\nserver=10.0.2.2\nrouters=10.0.2.2\n\
         dns=1.1.1.1 9.9.9.9\nlease_secs=3600\nt1_secs=1800\nt2_secs=3150\nobtained_unix=17\n"
    );
}

#[test]
fn extreme_leases_read_back() {
    let odd = Lease {
        ip: Ipv4Addr::new(0, 0, 0, 0),
        prefix: 255,
        routers: vec![],
        dns: vec![],
        server: Ipv4Addr::new(255, 255, 255, 255),
        lease_secs: u32::MAX,
        t1_secs: 0,
        t2_secs: u32::MAX,
    };
    let (iface, got, obtained) = read_lease(&write_lease(" #=x", &odd, u64::MAX)).expect("read");
    assert_eq!(iface, " #=x");
    assert_eq!((got.ip, got.prefix, got.server), (odd.ip, 255, odd.server));
    assert!(got.routers.is_empty() && got.dns.is_empty());
    assert_eq!((got.lease_secs, got.t1_secs, got.t2_secs), (u32::MAX, 0, u32::MAX));
    assert_eq!(obtained, u64::MAX);
    assert_eq!(read_lease(&write_lease("", &odd, 0)).expect("read").0, "");
}

#[test]
fn interface_that_ends_in_space_loses_it() {
    let (iface, ..) = read_lease(&write_lease("eth0 ", &lease(), 1)).expect("read");
    assert_eq!(iface, "eth0");
}

#[test]
fn missing_entries_have_their_errors() {
    let error = |text: &str| read_lease(text).err().map(lease_error_text);
    assert!(matches!(read_lease(""), Err(LeaseError::MissingIp)));
    assert_eq!(error(""), Some("lease missing ip"));
    assert_eq!(error("ip=1.2.3.4\n"), Some("lease missing prefix"));
    assert_eq!(error("ip=1.2.3.4\nprefix=8\n"), Some("lease missing server"));
    assert_eq!(error("prefix=8\nserver=1.2.3.4"), Some("lease missing ip"));
    assert_eq!(error("ip=1.2.3\nprefix=8\nserver=1.2.3.4"), Some("lease missing ip"));
    assert_eq!(error("ip=1.2.3.4\nprefix=256\nserver=1.2.3.4"), Some("lease missing prefix"));
}

#[test]
fn sparse_file_gets_defaults() {
    let (iface, got, obtained) = read_lease("ip=1.2.3.4\nprefix=8\nserver=4.3.2.1").expect("read");
    assert_eq!(iface, "");
    assert_eq!((got.lease_secs, got.t1_secs, got.t2_secs), (3600, 1800, 3150));
    assert_eq!(obtained, 0);
}

#[test]
fn odd_lines_are_passed_over() {
    let text = "# note\n\n  ip = 9.9.9.9\n\tip=1.2.3.4\r\nnonsense\nother=1\nprefix=+8\n\
                server=4.3.2.1\nrouters= 1.1.1.1  x 2.2.2.2\t\ndns=\nserver=5.5.5.5\n#server=1.1.1.1";
    let (_, got, _) = read_lease(text).expect("read");
    assert_eq!(got.ip, Ipv4Addr::new(1, 2, 3, 4));
    assert_eq!(got.prefix, 8);
    assert_eq!(got.server, Ipv4Addr::new(5, 5, 5, 5));
    assert_eq!(got.routers, vec![Ipv4Addr::new(1, 1, 1, 1), Ipv4Addr::new(2, 2, 2, 2)]);
    assert!(got.dns.is_empty());
}

#[test]
fn bad_times_follow_the_lease_time_read_so_far() {
    let base = "ip=1.2.3.4\nprefix=8\nserver=4.3.2.1\n";
    let read = |rest: &str| read_lease(&format!("{base}{rest}")).expect("read");
    let (_, got, _) = read("lease_secs=800\nt1_secs=x\nt2_secs=-1\n");
    assert_eq!((got.lease_secs, got.t1_secs, got.t2_secs), (800, 400, 700));
    let (_, got, obtained) = read("t1_secs=\nlease_secs=99999999999\nobtained_unix=soon");
    assert_eq!((got.lease_secs, got.t1_secs), (3600, 1800));
    assert_eq!(obtained, 0);
}

#[test]
fn later_address_can_undo_an_earlier_one() {
    let text = "ip=1.2.3.4\nprefix=8\nserver=4.3.2.1\nip=none\n";
    assert!(matches!(read_lease(text), Err(LeaseError::MissingIp)));
}

#[test]
fn default_times_are_in_order_while_they_fit() {
    assert_eq!((default_t1(3600), default_t2(3600)), (1800, 3150));
    assert_eq!((default_t1(1), default_t2(1)), (0, 0));
    let most = u32::MAX / 7;
    assert!(default_t1(most) <= default_t2(most) && default_t2(most) <= most);
    assert_eq!((default_t1(u32::MAX), default_t2(u32::MAX)), (2147483647, 536870911));
}
