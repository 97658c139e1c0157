use rlease::addr::{
    dotted_text, mask_to_prefix, parse_addr, parse_addrs, prefix_to_dotted, spaced_text, Ipv4Addr,
};
use rlease::args::{
    parse_args, usage_text, with_hostname_file, Args, UsageError, DEFAULT_TIMEOUT_SECS,
    DEFAULT_TRIES, USAGE_STATUS,
};
use rlease::arp::{is_conflict, probe_frame, probe_left, probe_step, FrameArrival, ProbeStep};
use rlease::lengths::settle;
use rlease::link::{
    carrier_step, device_name, ip_bin, mac_error_text, mix_xid, parse_mac, request_stop,
    sleep_step, stop_requested, CarrierStep, MacError, SleepStep,
};
use rlease::number::{decimal_text, number_error_text, parse_number, NumberError};
use rlease::text::{characters, same_text, split, split_once, split_words, text_of, trim};
use std::sync::atomic::AtomicBool;

fn argv(args: &[&str]) -> Vec<String> {
    args.iter().map(|s| s.to_string()).collect()
}

fn args(list: &[&str]) -> Args {
    parse_args(&argv(list)).expect("arguments")
}

#[test]
fn help_exits_2_and_prints_usage() {
    assert!(matches!(parse_args(&argv(&["-h"])), Err(UsageError::Usage)));
    assert_eq!(USAGE_STATUS, 2);
    assert!(usage_text().contains("usage: rlease"));
    assert!(usage_text().contains("-i"));
}

#[test]
fn usage_names_the_defaults() {
    assert!(usage_text().contains(&format!("attempts (default {DEFAULT_TRIES})")));
    assert!(usage_text().ends_with(&format!("seconds (default {DEFAULT_TIMEOUT_SECS})")));
}

#[test]
fn interface_alone_gets_defaults() {
    let a = args(&["-i", "eth0"]);
    assert_eq!(a.iface, "eth0");
    assert!(!a.oneshot && !a.quiet);
    assert_eq!((a.tries, a.timeout_secs), (8, 3));
    assert_eq!((a.script, a.lease_path, a.hostname), (None, None, None));
}

#[test]
fn every_flag_is_understood() {
    let a = args(&[
        "-n", "-q", "-s", "/s", "-l", "/l", "-H", "me", "-t", "5", "-T", "7", "-i", "-n",
    ]);
    assert_eq!(a.iface, "-n");
    assert!(a.oneshot && a.quiet);
    assert_eq!(a.script.as_deref(), Some("/s"));
    assert_eq!(a.lease_path.as_deref(), Some("/l"));
    assert_eq!(a.hostname.as_deref(), Some("me"));
    assert_eq!((a.tries, a.timeout_secs), (5, 7));
}

#[test]
fn later_flags_win() {
    let a = args(&["-i", "a", "-i", "b", "-t", "1", "-t", "4294967295"]);
    assert_eq!((a.iface.as_str(), a.tries), ("b", u32::MAX));
}

#[test]
fn wrong_command_lines_are_refused() {
    for bad in [
        &[][..],
        &["-n"],
        &["-i"],
        &["-i", "e", "-s"],
        &["-i", "e", "-l"],
        &["-i", "e", "-H"],
        &["-i", "e", "-t"],
        &["-i", "e", "-t", "x"],
        &["-i", "e", "-t", "4294967296"],
        &["-i", "e", "-T", "-1"],
        &["-i", "e", "--help"],
    ] {
        assert!(matches!(parse_args(&argv(bad)), Err(UsageError::Usage)), "{bad:?}");
    }
    match parse_args(&argv(&["-x", "-h"])) {
        Err(UsageError::Unknown(arg)) => assert_eq!(arg, "-x"),
        other => panic!("expected an unknown argument, got {other:?}"),
    }
}

#[test]
fn hostname_file_fills_in() {
    let bare = || args(&["-i", "e"]);
    let named = args(&["-i", "e", "-H", "me"]);
    let name = |a: Args, file: Option<&str>| {
        with_hostname_file(a, file.map(|s| s.to_string())).hostname
    };
    assert_eq!(name(named, Some("host")).as_deref(), Some("me"));
    assert_eq!(name(bare(), Some("  host\n")).as_deref(), Some("host"));
    assert_eq!(name(bare(), Some(" \n")), None);
    assert_eq!(name(bare(), None), None);
    assert_eq!(name(args(&["-i", "e", "-H", ""]), Some("host")).as_deref(), Some(""));
}

#[test]
fn hardware_addresses_are_read() {
    assert_eq!(
        parse_mac("02:00:00:aB:00:01\n").expect("address"),
        vec![2, 0, 0, 0xab, 0, 1]
    );
    assert_eq!(parse_mac("1:2:3:4:5:6:7").expect("address").len(), 7);
    let text = |s: &str| parse_mac(s).err().map(|e| mac_error_text(&e));
    assert!(matches!(parse_mac("1:2:3:4:5"), Err(MacError::TooShort)));
    assert_eq!(text("1:2:3:4:5").as_deref(), Some("MAC too short"));
    assert_eq!(
        text(" 1:zz:333 ").as_deref(),
        Some("bad MAC 1:zz:333: invalid digit found in string")
    );
    assert_eq!(
        text("1:333").as_deref(),
        Some("bad MAC 1:333: number too large to fit in target type")
    );
    assert_eq!(
        text("").as_deref(),
        Some("bad MAC : cannot parse integer from empty string")
    );
}

#[test]
fn carrier_is_waited_for() {
    let step = |s: Option<&str>, late| carrier_step(s.map(|s| s.to_string()), late);
    assert_eq!(step(Some("1\n"), true), CarrierStep::Up);
    assert_eq!(step(Some("0\n"), false), CarrierStep::Poll);
    assert_eq!(step(Some("11"), true), CarrierStep::Late);
    assert_eq!(step(None, false), CarrierStep::Poll);
    assert_eq!(step(None, true), CarrierStep::Late);
}

#[test]
fn device_names_are_padded() {
    assert_eq!(device_name(b"eth0", 8), Some(b"eth0\0\0\0\0".to_vec()));
    assert_eq!(device_name(b"eth0", 5), Some(b"eth0\0".to_vec()));
    assert_eq!(device_name(b"eth0", 4), None);
    assert_eq!(device_name(b"", 0), None);
}

#[test]
fn transaction_ids_mix_time_and_process() {
    assert_eq!(mix_xid(Some(0x5_0000_00ff), 0x0f), 0xf0);
    assert_eq!(mix_xid(None, 3), 2);
}

#[test]
fn stop_flag_is_read() {
    let stop = AtomicBool::new(false);
    assert!(!stop_requested(&stop));
    request_stop(&stop);
    assert!(stop_requested(&stop));
    assert!(stop_requested(&stop));
}

#[test]
fn sleep_is_cut_in_slices() {
    let mut left: u128 = 2_500_000_000;
    let mut slices = vec![];
    while let SleepStep::Sleep(n) = sleep_step(left, false) {
        slices.push(n);
        left -= n as u128;
    }
    assert_eq!(slices, vec![1_000_000_000, 1_000_000_000, 500_000_000]);
    assert_eq!(sleep_step(0, false), SleepStep::Over);
    assert_eq!(sleep_step(0, true), SleepStep::Stopped);
    assert_eq!(sleep_step(9, true), SleepStep::Stopped);
}

#[test]
fn network_program_is_the_first_there() {
    assert_eq!(ip_bin(true, true, true), "/usr/bin/ip");
    assert_eq!(ip_bin(false, true, true), "/sbin/ip");
    assert_eq!(ip_bin(false, false, true), "/usr/sbin/ip");
    assert_eq!(ip_bin(false, false, false), "ip");
}

#[test]
fn probe_frame_is_exact() {
    let frame = probe_frame(Ipv4Addr::new(10, 0, 2, 15), &[2, 0, 0, 0, 0, 1, 9]);
    let mut want = vec![0xff; 6];
    want.extend([2, 0, 0, 0, 0, 1, 8, 6, 0, 1, 8, 0, 6, 4, 0, 1, 2, 0, 0, 0, 0, 1]);
    want.extend([0; 10]);
    want.extend([10, 0, 2, 15]);
    assert_eq!(frame, want);
    assert_eq!(&probe_frame(Ipv4Addr::new(1, 2, 3, 4), &[7; 5])[6..12], &[0; 6]);
}

#[test]
fn conflicts_are_replies_of_others() {
    let ip = Ipv4Addr::new(10, 0, 2, 15);
    let own = [2, 0, 0, 0, 0, 1];
    let mut claim = probe_frame(Ipv4Addr::new(0, 0, 0, 0), &[6, 6, 6, 6, 6, 6]);
    claim[21] = 2;
    claim[28..32].copy_from_slice(&[10, 0, 2, 15]);
    assert!(is_conflict(&claim, ip, &own));
    assert!(!is_conflict(&claim[..41], ip, &own));
    assert!(!is_conflict(&claim, Ipv4Addr::new(10, 0, 2, 16), &own));
    assert!(!is_conflict(&claim, ip, &[6, 6, 6, 6, 6, 6]));
    let mut other = claim.clone();
    other[13] = 0;
    assert!(!is_conflict(&other, ip, &own));
    assert!(!is_conflict(&probe_frame(ip, &own), ip, &[6; 6]));
    assert_eq!(probe_step(FrameArrival::Silent, 999_999_999, ip, &own), ProbeStep::Clear);
    assert_eq!(probe_step(FrameArrival::Broken, 999_999_999, ip, &own), ProbeStep::Failed);
    assert_eq!(probe_step(FrameArrival::Frame(other), 999_999_999, ip, &own), ProbeStep::Wait);
    assert_eq!(
        probe_step(FrameArrival::Frame(probe_frame(ip, &own)), 1_000_000_000, ip, &own),
        ProbeStep::Clear
    );
    assert_eq!(
        probe_step(FrameArrival::Frame(claim.clone()), 1_000_000_000, ip, &own),
        ProbeStep::Conflict
    );
    assert_eq!((probe_left(400), probe_left(2_000_000_000)), (999_999_600, 0));
    assert_eq!(probe_step(FrameArrival::Frame(claim), 999_999_999, ip, &own), ProbeStep::Conflict);
}

#[test]
fn options_are_settled() {
    let kept = vec![9, 0, 80, 0, 81, 3, 1, 2, 3, 81, 1, 4, 94, 3, 1, 2, 3, 1, 2, 9, 9, 255, 80, 7];
    assert_eq!(settle(&kept, 1), kept);
    assert_eq!(settle(&[80, 2, 5, 5, 53, 1, 1], 0), vec![0, 0, 0, 0, 53, 1, 1]);
    assert_eq!(
        settle(&[153, 2, 0, 0, 153, 3, 0, 0, 0, 7, 0], 0),
        vec![0, 0, 0, 0, 0, 0, 0, 0, 0, 7, 0]
    );
    assert_eq!(settle(&[1, 0, 94, 2, 1, 1], 0), vec![1, 0, 255, 2, 1, 1]);
    assert_eq!(settle(&[80, 2, 5], 0), vec![80, 2, 5]);
    assert_eq!(settle(&[80], 0), vec![80]);
    assert_eq!(settle(&[], 0), Vec::<u8>::new());
}

#[test]
fn texts_are_taken_apart() {
    let s = characters("\u{3000} a=b=c \u{85}");
    assert_eq!(text_of(trim(&s)), "a=b=c");
    let (k, v) = split_once(trim(&s), '=').expect("two sides");
    assert!(same_text(k, "a") && same_text(v, "b=c"));
    assert!(split_once(&s, '#').is_none());
    let shown = |v: Vec<Vec<char>>| v.iter().map(|p| text_of(p)).collect::<Vec<String>>();
    assert_eq!(shown(split(&characters(":a::b"), ':')), vec!["", "a", "", "b"]);
    assert_eq!(shown(split(&[], ':')), vec![""]);
    assert_eq!(shown(split_words(&characters(" a\tbc\n"))), vec!["a", "bc"]);
    assert!(trim(&characters(" \t")).is_empty());
}

#[test]
fn numbers_are_read_and_written() {
    let read = |s: &str, radix, max| parse_number(&characters(s), radix, max);
    assert_eq!(read("+0042", 10, 255), Ok(42));
    assert_eq!(read("fF", 16, 255), Ok(255));
    assert_eq!(read("18446744073709551615", 10, u64::MAX), Ok(u64::MAX));
    assert_eq!(read("18446744073709551616", 10, u64::MAX), Err(NumberError::TooLarge));
    assert_eq!(read("", 10, 255), Err(NumberError::Empty));
    assert_eq!(read("+", 10, 255), Err(NumberError::InvalidDigit));
    assert_eq!(read("-1", 10, 255), Err(NumberError::InvalidDigit));
    assert_eq!(read("1 ", 10, 255), Err(NumberError::InvalidDigit));
    assert_eq!(number_error_text(NumberError::Empty), "cannot parse integer from empty string");
    assert_eq!(decimal_text(0), "0");
    assert_eq!(decimal_text(u64::MAX), "18446744073709551615");
}

#[test]
fn numbers_agree_with_the_standard_parser() {
    for s in ["", "+", "-", "-0", "+7", "007", "256", "300", "x", "1x", "x300", "300x", "٣"] {
        let want = s.parse::<u8>();
        match parse_number(&characters(s), 10, 255) {
            Ok(n) => assert_eq!(want, Ok(n as u8), "{s}"),
            Err(e) => assert_eq!(
                want.map_err(|e| e.to_string()),
                Err(number_error_text(e).to_string()),
                "{s}"
            ),
        }
    }
}

#[test]
fn addresses_are_read_and_written() {
    let read = |s: &str| parse_addr(&characters(s));
    assert_eq!(read("10.0.2.15"), Some(Ipv4Addr::new(10, 0, 2, 15)));
    for bad in ["", "1.2.3", "1.2.3.4.5", "256.1.1.1", "01.2.3.4", "1.2.3.4 ", "+1.2.3.4", "1..2.3"] {
        assert_eq!(read(bad), None, "{bad}");
    }
    assert_eq!(dotted_text(Ipv4Addr::new(255, 0, 9, 100)), "255.0.9.100");
    assert_eq!(Ipv4Addr::new(1, 2, 3, 4).octets(), [1, 2, 3, 4]);
    assert_eq!(Ipv4Addr::new(1, 2, 3, 4).bits, 0x01020304);
    assert!(Ipv4Addr::new(0, 0, 0, 0).is_unspecified());
    assert!(!Ipv4Addr::new(0, 0, 0, 1).is_unspecified());
    let list = parse_addrs(&characters("1.1.1.1 x\t2.2.2.2"));
    assert_eq!(list, vec![Ipv4Addr::new(1, 1, 1, 1), Ipv4Addr::new(2, 2, 2, 2)]);
    assert_eq!(spaced_text(&list), "1.1.1.1 2.2.2.2");
    assert_eq!(spaced_text(&vec![]), "");
}

#[test]
fn masks_and_prefixes_agree() {
    for prefix in 0..=32u8 {
        let mask = parse_addr(&characters(&prefix_to_dotted(prefix))).expect("mask");
        assert_eq!(mask_to_prefix(mask), prefix);
    }
    assert_eq!(prefix_to_dotted(200), "255.255.255.255");
    assert_eq!(mask_to_prefix(Ipv4Addr::new(255, 0, 255, 1)), 17);
}
