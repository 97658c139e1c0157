//! Leases, and the file that keeps one across restarts.

use crate::addr::{
    address_value, addresses_among, dotted, dotted_text, lemma_dotted_chars,
    lemma_dotted_reads_back, lemma_spaced_reads_back, parse_addr, parse_addrs, spaced, spaced_text,
    Ipv4Addr,
};
use crate::number::{
    decimal, decimal_text, lemma_decimal_digits, lemma_decimal_reads_back, number_value,
    parse_number, NumberError,
};
use crate::text::{
    characters, cut, is_space, lemma_cut, lemma_pieces_join, lemma_pieces_single, lemma_trimmed,
    pieces, same_text, split, split_once, text_of, texts, trim, trimmed, words,
};
use vstd::prelude::*;
use vstd::string::*;

verus! {

/// The lease time in seconds where the server names none.
pub const DEFAULT_LEASE_SECS: u32 = 3600;

/// What a server has granted.
#[derive(Clone, Debug)]
pub struct Lease {
    pub ip: Ipv4Addr,
    pub prefix: u8,
    pub routers: Vec<Ipv4Addr>,
    pub dns: Vec<Ipv4Addr>,
    pub server: Ipv4Addr,
    pub lease_secs: u32,
    pub t1_secs: u32,
    pub t2_secs: u32,
}

/// What a [`Lease`] stands for.
#[verifier::ext_equal]
pub ghost struct LeaseView {
    pub ip: Ipv4Addr,
    pub prefix: u8,
    pub routers: Seq<Ipv4Addr>,
    pub dns: Seq<Ipv4Addr>,
    pub server: Ipv4Addr,
    pub lease_secs: u32,
    pub t1_secs: u32,
    pub t2_secs: u32,
}

impl View for Lease {
    type V = LeaseView;

    open spec fn view(&self) -> LeaseView {
        LeaseView {
            ip: self.ip,
            prefix: self.prefix,
            routers: self.routers@,
            dns: self.dns@,
            server: self.server,
            lease_secs: self.lease_secs,
            t1_secs: self.t1_secs,
            t2_secs: self.t2_secs,
        }
    }
}

/// When to renew a lease of `secs` seconds where the server does not say: half way.
pub open spec fn t1_of(secs: u32) -> u32 {
    secs / 2
}

/// When to rebind a lease of `secs` seconds where the server does not say: an eighth of seven
/// times the lease time, the product held to 32 bits.
pub open spec fn t2_of(secs: u32) -> u32 {
    if secs * 7 <= u32::MAX {
        (secs * 7 / 8) as u32
    } else {
        u32::MAX / 8
    }
}

/// When to renew a lease where the server does not say.
pub fn default_t1(secs: u32) -> (r: u32)
    ensures
        r == t1_of(secs),
{
    secs / 2
}

/// When to rebind a lease where the server does not say.
pub fn default_t2(secs: u32) -> (r: u32)
    ensures
        r == t2_of(secs),
{
    let product: u64 = secs as u64 * 7;
    if product <= u32::MAX as u64 {
        (product / 8) as u32
    } else {
        u32::MAX / 8
    }
}

/// Where the server does not say when, a lease is renewed before it is rebound, and rebound before
/// it ends, as long as seven times the lease time fits in 32 bits.
pub proof fn law_default_times(secs: u32)
    requires
        secs * 7 <= u32::MAX,
    ensures
        t1_of(secs) <= t2_of(secs) <= secs,
{
}

/// A line of the lease file.
pub open spec fn entry(key: Seq<char>, value: Seq<char>) -> Seq<char> {
    key.push('=') + value
}

/// The lines of the lease file.
pub open spec fn lease_lines(iface: Seq<char>, lease: LeaseView, obtained: u64) -> Seq<Seq<char>> {
    seq![
        entry("iface"@, iface),
        entry("ip"@, dotted(lease.ip)),
        entry("prefix"@, decimal(lease.prefix as nat)),
        entry("server"@, dotted(lease.server)),
        entry("routers"@, spaced(lease.routers)),
        entry("dns"@, spaced(lease.dns)),
        entry("lease_secs"@, decimal(lease.lease_secs as nat)),
        entry("t1_secs"@, decimal(lease.t1_secs as nat)),
        entry("t2_secs"@, decimal(lease.t2_secs as nat)),
        entry("obtained_unix"@, decimal(obtained as nat)),
    ]
}

/// The text that ends each of `lines` with a line feed.
pub open spec fn with_line_feeds(lines: Seq<Seq<char>>) -> Seq<char>
    decreases lines.len(),
{
    if lines.len() == 0 {
        Seq::<char>::empty()
    } else {
        with_line_feeds(lines.drop_last()) + lines.last().push('\n')
    }
}

fn push_entry(out: &mut String, Ghost(lines): Ghost<Seq<Seq<char>>>, key: &str, value: &str)
    requires
        old(out)@ == with_line_feeds(lines),
    ensures
        final(out)@ == with_line_feeds(lines.push(entry(key@, value@))),
{
    out.append(key);
    out.push('=');
    out.append(value);
    out.push('\n');
    proof {
        let more = lines.push(entry(key@, value@));
        assert(more.drop_last() =~= lines);
        assert(out@ =~= with_line_feeds(lines) + entry(key@, value@).push('\n'));
    }
}

/// The contents of the lease file for a lease on `iface` that was obtained at the Unix time
/// `obtained`.
pub fn write_lease(iface: &str, lease: &Lease, obtained: u64) -> (r: String)
    ensures
        r@ == with_line_feeds(lease_lines(iface@, lease@, obtained)),
{
    let ghost lines = lease_lines(iface@, lease@, obtained);
    let mut out: String = String::new();
    proof {
        assert(out@ =~= with_line_feeds(lines.take(0)));
        assert(lines.take(1) =~= lines.take(0).push(lines[0]));
        assert(lines.take(2) =~= lines.take(1).push(lines[1]));
        assert(lines.take(3) =~= lines.take(2).push(lines[2]));
        assert(lines.take(4) =~= lines.take(3).push(lines[3]));
        assert(lines.take(5) =~= lines.take(4).push(lines[4]));
        assert(lines.take(6) =~= lines.take(5).push(lines[5]));
        assert(lines.take(7) =~= lines.take(6).push(lines[6]));
        assert(lines.take(8) =~= lines.take(7).push(lines[7]));
        assert(lines.take(9) =~= lines.take(8).push(lines[8]));
        assert(lines.take(10) =~= lines.take(9).push(lines[9]));
    }
    push_entry(&mut out, Ghost(lines.take(0)), "iface", iface);
    push_entry(&mut out, Ghost(lines.take(1)), "ip", dotted_text(lease.ip).as_str());
    push_entry(
        &mut out,
        Ghost(lines.take(2)),
        "prefix",
        decimal_text(lease.prefix as u64).as_str(),
    );
    push_entry(&mut out, Ghost(lines.take(3)), "server", dotted_text(lease.server).as_str());
    push_entry(&mut out, Ghost(lines.take(4)), "routers", spaced_text(&lease.routers).as_str());
    push_entry(&mut out, Ghost(lines.take(5)), "dns", spaced_text(&lease.dns).as_str());
    push_entry(
        &mut out,
        Ghost(lines.take(6)),
        "lease_secs",
        decimal_text(lease.lease_secs as u64).as_str(),
    );
    push_entry(
        &mut out,
        Ghost(lines.take(7)),
        "t1_secs",
        decimal_text(lease.t1_secs as u64).as_str(),
    );
    push_entry(
        &mut out,
        Ghost(lines.take(8)),
        "t2_secs",
        decimal_text(lease.t2_secs as u64).as_str(),
    );
    push_entry(
        &mut out,
        Ghost(lines.take(9)),
        "obtained_unix",
        decimal_text(obtained).as_str(),
    );
    proof {
        assert(lines.take(10) =~= lines);
    }
    out
}

/// What the lines of a lease file have said so far.
#[verifier::ext_equal]
pub ghost struct Saved {
    pub iface: Seq<char>,
    pub ip: Option<Ipv4Addr>,
    pub prefix: Option<u8>,
    pub server: Option<Ipv4Addr>,
    pub routers: Seq<Ipv4Addr>,
    pub dns: Seq<Ipv4Addr>,
    pub lease_secs: u32,
    pub t1_secs: u32,
    pub t2_secs: u32,
    pub obtained: u64,
}

/// What a lease file without lines says.
pub open spec fn nothing_saved() -> Saved {
    Saved {
        iface: Seq::<char>::empty(),
        ip: None,
        prefix: None,
        server: None,
        routers: Seq::<Ipv4Addr>::empty(),
        dns: Seq::<Ipv4Addr>::empty(),
        lease_secs: 3600,
        t1_secs: 1800,
        t2_secs: 3150,
        obtained: 0,
    }
}

/// The decimal number `s` where it is one up to `max`, else `default`.
pub open spec fn decimal_or(s: Seq<char>, max: nat, default: nat) -> nat {
    match number_value(s, 10, max) {
        Ok(n) => n,
        Err(_) => default,
    }
}

/// `saved` after a line that gives `value` to `key`.
pub open spec fn after_entry(saved: Saved, key: Seq<char>, value: Seq<char>) -> Saved {
    if key == "iface"@ {
        Saved { iface: value, ..saved }
    } else if key == "ip"@ {
        Saved { ip: address_value(value), ..saved }
    } else if key == "prefix"@ {
        Saved {
            prefix: match number_value(value, 10, 255) {
                Ok(n) => Some(n as u8),
                Err(_) => None,
            },
            ..saved
        }
    } else if key == "server"@ {
        Saved { server: address_value(value), ..saved }
    } else if key == "routers"@ {
        Saved { routers: addresses_among(words(value)), ..saved }
    } else if key == "dns"@ {
        Saved { dns: addresses_among(words(value)), ..saved }
    } else if key == "lease_secs"@ {
        Saved { lease_secs: decimal_or(value, u32::MAX as nat, 3600) as u32, ..saved }
    } else if key == "t1_secs"@ {
        Saved {
            t1_secs: decimal_or(value, u32::MAX as nat, t1_of(saved.lease_secs) as nat) as u32,
            ..saved
        }
    } else if key == "t2_secs"@ {
        Saved {
            t2_secs: decimal_or(value, u32::MAX as nat, t2_of(saved.lease_secs) as nat) as u32,
            ..saved
        }
    } else if key == "obtained_unix"@ {
        Saved { obtained: decimal_or(value, u64::MAX as nat, 0) as u64, ..saved }
    } else {
        saved
    }
}

/// `saved` after one more line: one that is empty, starts with `#` or has no `=` says nothing.
pub open spec fn after_line(saved: Saved, line: Seq<char>) -> Saved {
    let line = trimmed(line);
    if line.len() == 0 || line[0] == '#' {
        saved
    } else {
        match cut(line, '=') {
            Some((key, value)) => after_entry(saved, key, value),
            None => saved,
        }
    }
}

/// What `lines` say together: of two lines with the same key, the later one counts.
pub open spec fn after_lines(lines: Seq<Seq<char>>) -> Saved
    decreases lines.len(),
{
    if lines.len() == 0 {
        nothing_saved()
    } else {
        after_line(after_lines(lines.drop_last()), lines.last())
    }
}

/// Why a text is no lease file.
#[derive(Clone, Copy, Debug, PartialEq, Eq, Structural)]
pub enum LeaseError {
    MissingIp,
    MissingPrefix,
    MissingServer,
}

/// What a reader learns from a lease file: the interface, the lease and when it was obtained.
pub open spec fn lease_value(text: Seq<char>) -> Result<(Seq<char>, LeaseView, u64), LeaseError> {
    let saved = after_lines(pieces(text, '\n'));
    match (saved.ip, saved.prefix, saved.server) {
        (None, _, _) => Err(LeaseError::MissingIp),
        (_, None, _) => Err(LeaseError::MissingPrefix),
        (_, _, None) => Err(LeaseError::MissingServer),
        (Some(ip), Some(prefix), Some(server)) => Ok(
            (
                saved.iface,
                LeaseView {
                    ip,
                    prefix,
                    routers: saved.routers,
                    dns: saved.dns,
                    server,
                    lease_secs: saved.lease_secs,
                    t1_secs: saved.t1_secs,
                    t2_secs: saved.t2_secs,
                },
                saved.obtained,
            ),
        ),
    }
}

/// The words for an error of [`read_lease`].
pub fn lease_error_text(e: LeaseError) -> (r: &'static str)
    ensures
        match e {
            LeaseError::MissingIp => r@ == "lease missing ip"@,
            LeaseError::MissingPrefix => r@ == "lease missing prefix"@,
            LeaseError::MissingServer => r@ == "lease missing server"@,
        },
{
    match e {
        LeaseError::MissingIp => "lease missing ip",
        LeaseError::MissingPrefix => "lease missing prefix",
        LeaseError::MissingServer => "lease missing server",
    }
}

struct Fields {
    iface: String,
    ip: Option<Ipv4Addr>,
    prefix: Option<u8>,
    server: Option<Ipv4Addr>,
    routers: Vec<Ipv4Addr>,
    dns: Vec<Ipv4Addr>,
    lease_secs: u32,
    t1_secs: u32,
    t2_secs: u32,
    obtained: u64,
}

impl View for Fields {
    type V = Saved;

    closed spec fn view(&self) -> Saved {
        Saved {
            iface: self.iface@,
            ip: self.ip,
            prefix: self.prefix,
            server: self.server,
            routers: self.routers@,
            dns: self.dns@,
            lease_secs: self.lease_secs,
            t1_secs: self.t1_secs,
            t2_secs: self.t2_secs,
            obtained: self.obtained,
        }
    }
}

fn read_decimal_or(s: &[char], max: u64, default: u64) -> (r: u64)
    requires
        default <= max,
    ensures
        r == decimal_or(s@, max as nat, default as nat),
        r <= max,
{
    match parse_number(s, 10, max) {
        Ok(n) => n,
        Err(_) => default,
    }
}

impl Fields {
    fn take_entry(&mut self, key: &[char], value: &[char])
        ensures
            final(self)@ == after_entry(old(self)@, key@, value@),
    {
        if same_text(key, "iface") {
            self.iface = text_of(value);
        } else if same_text(key, "ip") {
            self.ip = parse_addr(value);
        } else if same_text(key, "prefix") {
            self.prefix = match parse_number(value, 10, 255) {
                Ok(n) => Some(n as u8),
                Err(_) => None,
            };
        } else if same_text(key, "server") {
            self.server = parse_addr(value);
        } else if same_text(key, "routers") {
            self.routers = parse_addrs(value);
        } else if same_text(key, "dns") {
            self.dns = parse_addrs(value);
        } else if same_text(key, "lease_secs") {
            self.lease_secs = read_decimal_or(value, u32::MAX as u64, 3600) as u32;
        } else if same_text(key, "t1_secs") {
            let default: u32 = default_t1(self.lease_secs);
            self.t1_secs = read_decimal_or(value, u32::MAX as u64, default as u64) as u32;
        } else if same_text(key, "t2_secs") {
            let default: u32 = default_t2(self.lease_secs);
            self.t2_secs = read_decimal_or(value, u32::MAX as u64, default as u64) as u32;
        } else if same_text(key, "obtained_unix") {
            self.obtained = read_decimal_or(value, u64::MAX, 0);
        }
    }

    fn take_line(&mut self, line: &[char])
        ensures
            final(self)@ == after_line(old(self)@, line@),
    {
        let line: &[char] = trim(line);
        if line.len() == 0 || line[0] == '#' {
            return;
        }
        if let Some((key, value)) = split_once(line, '=') {
            self.take_entry(key, value);
        }
    }
}

/// What the lease file `text` says: the interface, the lease and when it was obtained.
pub fn read_lease(text: &str) -> (r: Result<(String, Lease, u64), LeaseError>)
    ensures
        match r {
            Ok((iface, lease, obtained)) => lease_value(text@) == Ok::<_, LeaseError>(
                (iface@, lease@, obtained),
            ),
            Err(e) => lease_value(text@) == Err::<(Seq<char>, LeaseView, u64), _>(e),
        },
{
    let all: Vec<char> = characters(text);
    let lines: Vec<Vec<char>> = split(&all, '\n');
    let mut fields = Fields {
        iface: String::new(),
        ip: None,
        prefix: None,
        server: None,
        routers: Vec::new(),
        dns: Vec::new(),
        lease_secs: DEFAULT_LEASE_SECS,
        t1_secs: 1800,
        t2_secs: 3150,
        obtained: 0,
    };
    let mut i: usize = 0;
    let ghost said = texts(lines@);
    proof {
        assert(fields@ =~= nothing_saved());
    }
    while i < lines.len()
        invariant
            i <= lines.len(),
            said == texts(lines@),
            fields@ == after_lines(said.take(i as int)),
        decreases lines.len() - i,
    {
        proof {
            assert(said.take(i + 1).drop_last() =~= said.take(i as int));
            assert(said.take(i + 1).last() == lines@[i as int]@);
        }
        fields.take_line(&lines[i]);
        i += 1;
    }
    proof {
        assert(said.take(said.len() as int) =~= said);
    }
    match (fields.ip, fields.prefix, fields.server) {
        (None, _, _) => Err(LeaseError::MissingIp),
        (_, None, _) => Err(LeaseError::MissingPrefix),
        (_, _, None) => Err(LeaseError::MissingServer),
        (Some(ip), Some(prefix), Some(server)) => {
            let lease = Lease {
                ip,
                prefix,
                routers: fields.routers,
                dns: fields.dns,
                server,
                lease_secs: fields.lease_secs,
                t1_secs: fields.t1_secs,
                t2_secs: fields.t2_secs,
            };
            Ok((fields.iface, lease, fields.obtained))
        },
    }
}

proof fn lemma_lines_split(lines: Seq<Seq<char>>, tail: Seq<char>)
    requires
        forall|i: int| 0 <= i < lines.len() ==> !(#[trigger] lines[i]).contains('\n'),
    ensures
        pieces(with_line_feeds(lines) + tail, '\n') == lines + pieces(tail, '\n'),
    decreases lines.len(),
{
    if lines.len() == 0 {
        assert(with_line_feeds(lines) + tail =~= tail);
        assert(lines + pieces(tail, '\n') =~= pieces(tail, '\n'));
    } else {
        let before = lines.drop_last();
        let last = lines.last();
        assert(last == lines[lines.len() - 1]);
        assert forall|i: int| 0 <= i < before.len() implies !(#[trigger] before[i]).contains(
            '\n',
        ) by {
            assert(before[i] == lines[i]);
        }
        lemma_lines_split(before, last.push('\n') + tail);
        lemma_pieces_join(last, '\n', tail);
        lemma_pieces_single(last, '\n');
        assert(with_line_feeds(lines) + tail =~= with_line_feeds(before) + (last.push('\n')
            + tail));
        assert(before + (seq![last] + pieces(tail, '\n')) =~= lines + pieces(tail, '\n'));
    }
}

#[verifier::opaque]
spec fn plain_key(key: Seq<char>) -> bool {
    &&& key.len() > 0
    &&& !is_space(key[0])
    &&& key[0] != '#'
    &&& !key.contains('=')
    &&& !key.contains('\n')
}

#[verifier::opaque]
spec fn plain_value(value: Seq<char>) -> bool {
    &&& value.len() > 0 ==> !is_space(value.last())
    &&& !value.contains('\n')
}

proof fn lemma_entry_line(saved: Saved, key: Seq<char>, value: Seq<char>)
    requires
        plain_key(key),
        plain_value(value),
    ensures
        after_line(saved, entry(key, value)) == after_entry(saved, key, value),
        !entry(key, value).contains('\n'),
{
    reveal(plain_key);
    reveal(plain_value);
    let line = entry(key, value);
    assert(line[0] == key[0]);
    assert(line.last() == if value.len() == 0 {
        '='
    } else {
        value.last()
    });
    lemma_trimmed(line);
    lemma_cut(key, '=', value);
    assert forall|i: int| 0 <= i < line.len() implies line[i] != '\n' by {
        if i < key.len() {
            assert(line[i] == key[i]);
        } else if i > key.len() {
            assert(line[i] == value[i - key.len() - 1]);
        }
    }
}

proof fn lemma_keys()
    ensures
        plain_key("iface"@),
        plain_key("ip"@),
        plain_key("prefix"@),
        plain_key("server"@),
        plain_key("routers"@),
        plain_key("dns"@),
        plain_key("lease_secs"@),
        plain_key("t1_secs"@),
        plain_key("t2_secs"@),
        plain_key("obtained_unix"@),
{
    reveal(plain_key);
    reveal_strlit("iface");
    reveal_strlit("ip");
    reveal_strlit("prefix");
    reveal_strlit("server");
    reveal_strlit("routers");
    reveal_strlit("dns");
    reveal_strlit("lease_secs");
    reveal_strlit("t1_secs");
    reveal_strlit("t2_secs");
    reveal_strlit("obtained_unix");
}

proof fn lemma_decimal_plain(n: nat)
    ensures
        plain_value(decimal(n)),
{
    reveal(plain_value);
    lemma_decimal_digits(n);
    let s = decimal(n);
    assert(s.last() == s[s.len() - 1]);
}

proof fn lemma_dotted_plain(a: Ipv4Addr)
    ensures
        plain_value(dotted(a)),
{
    reveal(plain_value);
    lemma_dotted_chars(a);
}

proof fn lemma_spaced_plain(addrs: Seq<Ipv4Addr>)
    ensures
        plain_value(spaced(addrs)),
{
    reveal(plain_value);
    lemma_spaced_reads_back(addrs);
}

/// Reading the file that was written for a lease gives back the interface, the lease and the
/// time. The interface's name stands on a line of its own, so it must hold no line feed, nor
/// end in white space.
pub proof fn law_lease_reads_back(iface: Seq<char>, lease: LeaseView, obtained: u64)
    requires
        !iface.contains('\n'),
        iface.len() > 0 ==> !is_space(iface.last()),
    ensures
        lease_value(with_line_feeds(lease_lines(iface, lease, obtained))) == Ok::<_, LeaseError>(
            (iface, lease, obtained),
        ),
{
    let lines = lease_lines(iface, lease, obtained);
    let text = with_line_feeds(lines);
    let none = Seq::<char>::empty();
    reveal(plain_value);
    lemma_lines_say(iface, lease, obtained);
    assert(text + none =~= text);
    lemma_lines_split(lines, none);
    assert(!none.contains('\n'));
    lemma_pieces_single(none, '\n');
    assert(lines + seq![none] =~= lines.push(none));
    assert(lines.push(none).drop_last() =~= lines);
    assert(after_lines(lines.push(none)) == after_line(after_lines(lines), none));
}

proof fn lemma_lines_say(iface: Seq<char>, lease: LeaseView, obtained: u64)
    requires
        plain_value(iface),
    ensures
        ({
            let lines = lease_lines(iface, lease, obtained);
            &&& forall|i: int| 0 <= i < lines.len() ==> !(#[trigger] lines[i]).contains('\n')
            &&& after_lines(lines) == Saved {
                iface,
                ip: Some(lease.ip),
                prefix: Some(lease.prefix),
                server: Some(lease.server),
                routers: lease.routers,
                dns: lease.dns,
                lease_secs: lease.lease_secs,
                t1_secs: lease.t1_secs,
                t2_secs: lease.t2_secs,
                obtained,
            }
        }),
{
    let lines = lease_lines(iface, lease, obtained);
    let s0 = nothing_saved();
    let s1 = Saved { iface, ..s0 };
    let s2 = Saved { ip: Some(lease.ip), ..s1 };
    let s3 = Saved { prefix: Some(lease.prefix), ..s2 };
    let s4 = Saved { server: Some(lease.server), ..s3 };
    let s5 = Saved { routers: lease.routers, ..s4 };
    let s6 = Saved { dns: lease.dns, ..s5 };
    let s7 = Saved { lease_secs: lease.lease_secs, ..s6 };
    let s8 = Saved { t1_secs: lease.t1_secs, ..s7 };
    let s9 = Saved { t2_secs: lease.t2_secs, ..s8 };
    let s10 = Saved { obtained, ..s9 };
    let states = seq![s0, s1, s2, s3, s4, s5, s6, s7, s8, s9, s10];
    lemma_line_says(s0, iface, lease, obtained);
    lemma_line_says(s1, iface, lease, obtained);
    lemma_line_says(s2, iface, lease, obtained);
    lemma_line_says(s3, iface, lease, obtained);
    lemma_line_says(s4, iface, lease, obtained);
    lemma_line_says(s5, iface, lease, obtained);
    lemma_line_says(s6, iface, lease, obtained);
    lemma_line_says(s7, iface, lease, obtained);
    lemma_line_says(s8, iface, lease, obtained);
    lemma_line_says(s9, iface, lease, obtained);
    assert forall|i: int| 0 <= i < lines.len() implies leads_to(
        states[i],
        #[trigger] lines[i],
        states[i + 1],
    ) by {}
    lemma_lines_lead(lines, states);
    assert forall|i: int| 0 <= i < lines.len() implies !(#[trigger] lines[i]).contains('\n') by {
        reveal(leads_to);
    }
}

#[verifier::opaque]
spec fn leads_to(saved: Saved, line: Seq<char>, next: Saved) -> bool {
    after_line(saved, line) == next && !line.contains('\n')
}

proof fn lemma_lines_lead(lines: Seq<Seq<char>>, states: Seq<Saved>)
    requires
        states.len() == lines.len() + 1,
        states[0] == nothing_saved(),
        forall|i: int|
            0 <= i < lines.len() ==> leads_to(states[i], #[trigger] lines[i], states[i + 1]),
    ensures
        after_lines(lines) == states.last(),
    decreases lines.len(),
{
    reveal(leads_to);
    if lines.len() > 0 {
        let before = lines.drop_last();
        let n = before.len() as int;
        assert forall|i: int| 0 <= i < n implies leads_to(
            states.drop_last()[i],
            #[trigger] before[i],
            states.drop_last()[i + 1],
        ) by {
            assert(before[i] == lines[i]);
        }
        lemma_lines_lead(before, states.drop_last());
        assert(leads_to(states[n], lines[n], states[n + 1]));
    }
}

proof fn lemma_line_says(saved: Saved, iface: Seq<char>, lease: LeaseView, obtained: u64)
    requires
        plain_value(iface),
    ensures
        leads_to(
            saved,
            entry("iface"@, iface),
            (Saved { iface, ..saved }),
        ),
        leads_to(
            saved,
            entry("ip"@, dotted(lease.ip)),
            (Saved { ip: Some(lease.ip), ..saved }),
        ),
        leads_to(
            saved,
            entry("prefix"@, decimal(lease.prefix as nat)),
            (Saved { prefix: Some(lease.prefix), ..saved }),
        ),
        leads_to(
            saved,
            entry("server"@, dotted(lease.server)),
            (Saved { server: Some(lease.server), ..saved }),
        ),
        leads_to(
            saved,
            entry("routers"@, spaced(lease.routers)),
            (Saved { routers: lease.routers, ..saved }),
        ),
        leads_to(
            saved,
            entry("dns"@, spaced(lease.dns)),
            (Saved { dns: lease.dns, ..saved }),
        ),
        leads_to(
            saved,
            entry("lease_secs"@, decimal(lease.lease_secs as nat)),
            (Saved { lease_secs: lease.lease_secs, ..saved }),
        ),
        leads_to(
            saved,
            entry("t1_secs"@, decimal(lease.t1_secs as nat)),
            (Saved { t1_secs: lease.t1_secs, ..saved }),
        ),
        leads_to(
            saved,
            entry("t2_secs"@, decimal(lease.t2_secs as nat)),
            (Saved { t2_secs: lease.t2_secs, ..saved }),
        ),
        leads_to(
            saved,
            entry("obtained_unix"@, decimal(obtained as nat)),
            (Saved { obtained, ..saved }),
        ),
{
    reveal(leads_to);
    lemma_keys();
    lemma_dotted_plain(lease.ip);
    lemma_dotted_plain(lease.server);
    lemma_decimal_plain(lease.prefix as nat);
    lemma_spaced_plain(lease.routers);
    lemma_spaced_plain(lease.dns);
    lemma_decimal_plain(lease.lease_secs as nat);
    lemma_decimal_plain(lease.t1_secs as nat);
    lemma_decimal_plain(lease.t2_secs as nat);
    lemma_decimal_plain(obtained as nat);
    lemma_entry_says(saved, iface, lease, obtained);
    lemma_entry_line(saved, "iface"@, iface);
    lemma_entry_line(saved, "ip"@, dotted(lease.ip));
    lemma_entry_line(saved, "prefix"@, decimal(lease.prefix as nat));
    lemma_entry_line(saved, "server"@, dotted(lease.server));
    lemma_entry_line(saved, "routers"@, spaced(lease.routers));
    lemma_entry_line(saved, "dns"@, spaced(lease.dns));
    lemma_entry_line(saved, "lease_secs"@, decimal(lease.lease_secs as nat));
    lemma_entry_line(saved, "t1_secs"@, decimal(lease.t1_secs as nat));
    lemma_entry_line(saved, "t2_secs"@, decimal(lease.t2_secs as nat));
    lemma_entry_line(saved, "obtained_unix"@, decimal(obtained as nat));
}

proof fn lemma_values_read_back(lease: LeaseView, obtained: u64)
    ensures
        address_value(dotted(lease.ip)) == Some(lease.ip),
        address_value(dotted(lease.server)) == Some(lease.server),
        addresses_among(words(spaced(lease.routers))) == lease.routers,
        addresses_among(words(spaced(lease.dns))) == lease.dns,
        number_value(decimal(lease.prefix as nat), 10, 255) == Ok::<nat, NumberError>(
            lease.prefix as nat,
        ),
        forall|default: nat|
            decimal_or(decimal(lease.lease_secs as nat), u32::MAX as nat, default)
                == lease.lease_secs,
        forall|default: nat|
            decimal_or(decimal(lease.t1_secs as nat), u32::MAX as nat, default) == lease.t1_secs,
        forall|default: nat|
            decimal_or(decimal(lease.t2_secs as nat), u32::MAX as nat, default) == lease.t2_secs,
        forall|default: nat|
            decimal_or(decimal(obtained as nat), u64::MAX as nat, default) == obtained,
{
    lemma_dotted_reads_back(lease.ip);
    lemma_dotted_reads_back(lease.server);
    lemma_spaced_reads_back(lease.routers);
    lemma_spaced_reads_back(lease.dns);
    lemma_decimal_reads_back(lease.prefix as nat, 255);
    lemma_decimal_reads_back(lease.lease_secs as nat, u32::MAX as nat);
    lemma_decimal_reads_back(lease.t1_secs as nat, u32::MAX as nat);
    lemma_decimal_reads_back(lease.t2_secs as nat, u32::MAX as nat);
    lemma_decimal_reads_back(obtained as nat, u64::MAX as nat);
}

proof fn lemma_keys_differ()
    ensures
        "ip"@ != "iface"@,
        "prefix"@ != "iface"@,
        "prefix"@ != "ip"@,
        "server"@ != "iface"@,
        "server"@ != "ip"@,
        "server"@ != "prefix"@,
        "routers"@ != "iface"@,
        "routers"@ != "ip"@,
        "routers"@ != "prefix"@,
        "routers"@ != "server"@,
        "dns"@ != "iface"@,
        "dns"@ != "ip"@,
        "dns"@ != "prefix"@,
        "dns"@ != "server"@,
        "dns"@ != "routers"@,
        "lease_secs"@ != "iface"@,
        "lease_secs"@ != "ip"@,
        "lease_secs"@ != "prefix"@,
        "lease_secs"@ != "server"@,
        "lease_secs"@ != "routers"@,
        "lease_secs"@ != "dns"@,
        "t1_secs"@ != "iface"@,
        "t1_secs"@ != "ip"@,
        "t1_secs"@ != "prefix"@,
        "t1_secs"@ != "server"@,
        "t1_secs"@ != "routers"@,
        "t1_secs"@ != "dns"@,
        "t1_secs"@ != "lease_secs"@,
        "t2_secs"@ != "iface"@,
        "t2_secs"@ != "ip"@,
        "t2_secs"@ != "prefix"@,
        "t2_secs"@ != "server"@,
        "t2_secs"@ != "routers"@,
        "t2_secs"@ != "dns"@,
        "t2_secs"@ != "lease_secs"@,
        "t2_secs"@ != "t1_secs"@,
        "obtained_unix"@ != "iface"@,
        "obtained_unix"@ != "ip"@,
        "obtained_unix"@ != "prefix"@,
        "obtained_unix"@ != "server"@,
        "obtained_unix"@ != "routers"@,
        "obtained_unix"@ != "dns"@,
        "obtained_unix"@ != "lease_secs"@,
        "obtained_unix"@ != "t1_secs"@,
        "obtained_unix"@ != "t2_secs"@,
{
    reveal_strlit("iface");
    reveal_strlit("ip");
    reveal_strlit("prefix");
    reveal_strlit("server");
    reveal_strlit("routers");
    reveal_strlit("dns");
    reveal_strlit("lease_secs");
    reveal_strlit("t1_secs");
    reveal_strlit("t2_secs");
    reveal_strlit("obtained_unix");
    assert("iface"@.len() == 5);
    assert("ip"@.len() == 2);
    assert("prefix"@.len() == 6);
    assert("server"@.len() == 6);
    assert("routers"@.len() == 7);
    assert("dns"@.len() == 3);
    assert("lease_secs"@.len() == 10);
    assert("t1_secs"@.len() == 7);
    assert("t2_secs"@.len() == 7);
    assert("obtained_unix"@.len() == 13);
    assert("server"@[0] != "prefix"@[0]);
    assert("routers"@[0] != "t1_secs"@[0]);
    assert("routers"@[0] != "t2_secs"@[0]);
    assert("t1_secs"@[1] != "t2_secs"@[1]);
}

proof fn lemma_entry_says(saved: Saved, iface: Seq<char>, lease: LeaseView, obtained: u64)
    ensures
        after_entry(saved, "iface"@, iface)
            == (Saved { iface, ..saved }),
        after_entry(saved, "ip"@, dotted(lease.ip))
            == (Saved { ip: Some(lease.ip), ..saved }),
        after_entry(saved, "prefix"@, decimal(lease.prefix as nat))
            == (Saved { prefix: Some(lease.prefix), ..saved }),
        after_entry(saved, "server"@, dotted(lease.server))
            == (Saved { server: Some(lease.server), ..saved }),
        after_entry(saved, "routers"@, spaced(lease.routers))
            == (Saved { routers: lease.routers, ..saved }),
        after_entry(saved, "dns"@, spaced(lease.dns))
            == (Saved { dns: lease.dns, ..saved }),
        after_entry(saved, "lease_secs"@, decimal(lease.lease_secs as nat))
            == (Saved { lease_secs: lease.lease_secs, ..saved }),
        after_entry(saved, "t1_secs"@, decimal(lease.t1_secs as nat))
            == (Saved { t1_secs: lease.t1_secs, ..saved }),
        after_entry(saved, "t2_secs"@, decimal(lease.t2_secs as nat))
            == (Saved { t2_secs: lease.t2_secs, ..saved }),
        after_entry(saved, "obtained_unix"@, decimal(obtained as nat))
            == (Saved { obtained, ..saved }),
{
    lemma_values_read_back(lease, obtained);
    lemma_keys_differ();
}

/// A lease's view leaves nothing out.
pub proof fn law_lease_view(lease: Lease)
    ensures
        lease@.ip == lease.ip,
        lease@.prefix == lease.prefix,
        lease@.routers == lease.routers@,
        lease@.dns == lease.dns@,
        lease@.server == lease.server,
        lease@.lease_secs == lease.lease_secs,
        lease@.t1_secs == lease.t1_secs,
        lease@.t2_secs == lease.t2_secs,
{
}

/// The renewal falls on half of the lease time and the rebinding on seven eighths of it, each rounded
/// down. Where seven times the lease time does not fit in 32 bits, the rebinding falls on an eighth
/// of the greatest number that does.
pub proof fn law_times_of_a_lease(secs: u32)
    ensures
        2 * t1_of(secs) <= secs < 2 * t1_of(secs) + 2,
        secs * 7 <= 0xffff_ffff ==> 8 * t2_of(secs) <= secs * 7 < 8 * t2_of(secs) + 8,
        secs * 7 > 0xffff_ffff ==> t2_of(secs) == 0x1fff_ffff,
{
}

/// The lease file has ten lines, each a name, an equals sign and a value, and each ended by a line
/// feed: what the lease holds stands under its own name.
pub proof fn law_lease_file_format(iface: Seq<char>, lease: LeaseView, obtained: u64)
    ensures
        ({
            let lines = lease_lines(iface, lease, obtained);
            &&& lines.len() == 10
            &&& lines[0] == "iface="@ + iface
            &&& lines[1] == "ip="@ + dotted(lease.ip)
            &&& lines[2] == "prefix="@ + decimal(lease.prefix as nat)
            &&& lines[3] == "server="@ + dotted(lease.server)
            &&& lines[4] == "routers="@ + spaced(lease.routers)
            &&& lines[5] == "dns="@ + spaced(lease.dns)
            &&& lines[6] == "lease_secs="@ + decimal(lease.lease_secs as nat)
            &&& lines[7] == "t1_secs="@ + decimal(lease.t1_secs as nat)
            &&& lines[8] == "t2_secs="@ + decimal(lease.t2_secs as nat)
            &&& lines[9] == "obtained_unix="@ + decimal(obtained as nat)
        }),
        !iface.contains('\n') ==> pieces(
            with_line_feeds(lease_lines(iface, lease, obtained)),
            '\n',
        ) == lease_lines(iface, lease, obtained).push(Seq::<char>::empty()),
{
    let lines = lease_lines(iface, lease, obtained);
    lemma_name_iface();
    assert(lines[0] =~= "iface="@ + iface);
    lemma_name_ip();
    assert(lines[1] =~= "ip="@ + dotted(lease.ip));
    lemma_name_prefix();
    assert(lines[2] =~= "prefix="@ + decimal(lease.prefix as nat));
    lemma_name_server();
    assert(lines[3] =~= "server="@ + dotted(lease.server));
    lemma_name_routers();
    assert(lines[4] =~= "routers="@ + spaced(lease.routers));
    lemma_name_dns();
    assert(lines[5] =~= "dns="@ + spaced(lease.dns));
    lemma_name_lease_secs();
    assert(lines[6] =~= "lease_secs="@ + decimal(lease.lease_secs as nat));
    lemma_name_t1_secs();
    assert(lines[7] =~= "t1_secs="@ + decimal(lease.t1_secs as nat));
    lemma_name_t2_secs();
    assert(lines[8] =~= "t2_secs="@ + decimal(lease.t2_secs as nat));
    lemma_name_obtained_unix();
    assert(lines[9] =~= "obtained_unix="@ + decimal(obtained as nat));
    if !iface.contains('\n') {
        let none = Seq::<char>::empty();
        lemma_lines_have_no_feed(iface, lease, obtained);
        lemma_lines_split(lines, none);
        lemma_pieces_single(none, '\n');
        assert(with_line_feeds(lines) + none =~= with_line_feeds(lines));
        assert(lines + seq![none] =~= lines.push(none));
    }
}

proof fn lemma_lines_have_no_feed(iface: Seq<char>, lease: LeaseView, obtained: u64)
    requires
        !iface.contains('\n'),
    ensures
        ({
            let lines = lease_lines(iface, lease, obtained);
            forall|i: int| 0 <= i < lines.len() ==> !(#[trigger] lines[i]).contains('\n')
        }),
{
    reveal(plain_key);
    reveal(plain_value);
    lemma_keys();
    lemma_dotted_plain(lease.ip);
    lemma_dotted_plain(lease.server);
    lemma_decimal_plain(lease.prefix as nat);
    lemma_spaced_plain(lease.routers);
    lemma_spaced_plain(lease.dns);
    lemma_decimal_plain(lease.lease_secs as nat);
    lemma_decimal_plain(lease.t1_secs as nat);
    lemma_decimal_plain(lease.t2_secs as nat);
    lemma_decimal_plain(obtained as nat);
    lemma_no_feed("iface"@, iface);
    lemma_no_feed("ip"@, dotted(lease.ip));
    lemma_no_feed("prefix"@, decimal(lease.prefix as nat));
    lemma_no_feed("server"@, dotted(lease.server));
    lemma_no_feed("routers"@, spaced(lease.routers));
    lemma_no_feed("dns"@, spaced(lease.dns));
    lemma_no_feed("lease_secs"@, decimal(lease.lease_secs as nat));
    lemma_no_feed("t1_secs"@, decimal(lease.t1_secs as nat));
    lemma_no_feed("t2_secs"@, decimal(lease.t2_secs as nat));
    lemma_no_feed("obtained_unix"@, decimal(obtained as nat));
}

proof fn lemma_no_feed(key: Seq<char>, value: Seq<char>)
    requires
        !key.contains('\n'),
        !value.contains('\n'),
    ensures
        !entry(key, value).contains('\n'),
{
    let line = entry(key, value);
    assert forall|i: int| 0 <= i < line.len() implies line[i] != '\n' by {
        if i < key.len() {
            assert(line[i] == key[i]);
        } else if i > key.len() {
            assert(line[i] == value[i - key.len() - 1]);
        }
    }
}

proof fn lemma_name_iface()
    ensures
        "iface"@.push('=') == "iface="@,
{
    reveal_strlit("iface");
    reveal_strlit("iface=");
    assert("iface"@.push('=') =~= "iface="@);
}

proof fn lemma_name_ip()
    ensures
        "ip"@.push('=') == "ip="@,
{
    reveal_strlit("ip");
    reveal_strlit("ip=");
    assert("ip"@.push('=') =~= "ip="@);
}

proof fn lemma_name_prefix()
    ensures
        "prefix"@.push('=') == "prefix="@,
{
    reveal_strlit("prefix");
    reveal_strlit("prefix=");
    assert("prefix"@.push('=') =~= "prefix="@);
}

proof fn lemma_name_server()
    ensures
        "server"@.push('=') == "server="@,
{
    reveal_strlit("server");
    reveal_strlit("server=");
    assert("server"@.push('=') =~= "server="@);
}

proof fn lemma_name_routers()
    ensures
        "routers"@.push('=') == "routers="@,
{
    reveal_strlit("routers");
    reveal_strlit("routers=");
    assert("routers"@.push('=') =~= "routers="@);
}

proof fn lemma_name_dns()
    ensures
        "dns"@.push('=') == "dns="@,
{
    reveal_strlit("dns");
    reveal_strlit("dns=");
    assert("dns"@.push('=') =~= "dns="@);
}

proof fn lemma_name_lease_secs()
    ensures
        "lease_secs"@.push('=') == "lease_secs="@,
{
    reveal_strlit("lease_secs");
    reveal_strlit("lease_secs=");
    assert("lease_secs"@.push('=') =~= "lease_secs="@);
}

proof fn lemma_name_t1_secs()
    ensures
        "t1_secs"@.push('=') == "t1_secs="@,
{
    reveal_strlit("t1_secs");
    reveal_strlit("t1_secs=");
    assert("t1_secs"@.push('=') =~= "t1_secs="@);
}

proof fn lemma_name_t2_secs()
    ensures
        "t2_secs"@.push('=') == "t2_secs="@,
{
    reveal_strlit("t2_secs");
    reveal_strlit("t2_secs=");
    assert("t2_secs"@.push('=') =~= "t2_secs="@);
}

proof fn lemma_name_obtained_unix()
    ensures
        "obtained_unix"@.push('=') == "obtained_unix="@,
{
    reveal_strlit("obtained_unix");
    reveal_strlit("obtained_unix=");
    assert("obtained_unix"@.push('=') =~= "obtained_unix="@);
}

/// What a lease file says does not depend on how it came to be: a last line with a name sets what
/// that name stands for, whatever was said of it before, and nothing else. A lease time that is no
/// number is an hour, a renewal or rebinding time that is none follows from the lease time said
/// before, and a time of issue that is none is zero.
pub proof fn law_last_line_counts(text: Seq<char>, value: Seq<char>)
    requires
        !value.contains('\n'),
        value.len() > 0 ==> !is_space(value.last()),
    ensures
        ({
            let before = after_lines(pieces(text, '\n'));
            let said = |name: Seq<char>| after_lines(pieces(text.push('\n') + (name + value), '\n'));
            &&& said("iface="@) == (Saved { iface: value, ..before })
            &&& said("ip="@) == (Saved { ip: address_value(value), ..before })
            &&& said("server="@) == (Saved { server: address_value(value), ..before })
            &&& said("routers="@) == (Saved { routers: addresses_among(words(value)), ..before })
            &&& said("dns="@) == (Saved { dns: addresses_among(words(value)), ..before })
            &&& said("prefix="@) == (Saved {
                prefix: match number_value(value, 10, 255) {
                    Ok(n) => Some(n as u8),
                    Err(_) => None,
                },
                ..before
            })
            &&& said("lease_secs="@) == (Saved {
                lease_secs: match number_value(value, 10, 0xffff_ffff) {
                    Ok(n) => n as u32,
                    Err(_) => 3600,
                },
                ..before
            })
            &&& said("t1_secs="@) == (Saved {
                t1_secs: match number_value(value, 10, 0xffff_ffff) {
                    Ok(n) => n as u32,
                    Err(_) => t1_of(before.lease_secs),
                },
                ..before
            })
            &&& said("t2_secs="@) == (Saved {
                t2_secs: match number_value(value, 10, 0xffff_ffff) {
                    Ok(n) => n as u32,
                    Err(_) => t2_of(before.lease_secs),
                },
                ..before
            })
            &&& said("obtained_unix="@) == (Saved {
                obtained: match number_value(value, 10, 0xffff_ffff_ffff_ffff) {
                    Ok(n) => n as u64,
                    Err(_) => 0,
                },
                ..before
            })
        }),
{
    reveal(plain_value);
    lemma_keys();
    lemma_keys_differ();
    lemma_name_iface();
    lemma_last_line(text, "iface"@, value);
    lemma_name_ip();
    lemma_last_line(text, "ip"@, value);
    lemma_name_prefix();
    lemma_last_line(text, "prefix"@, value);
    lemma_name_server();
    lemma_last_line(text, "server"@, value);
    lemma_name_routers();
    lemma_last_line(text, "routers"@, value);
    lemma_name_dns();
    lemma_last_line(text, "dns"@, value);
    lemma_name_lease_secs();
    lemma_last_line(text, "lease_secs"@, value);
    lemma_name_t1_secs();
    lemma_last_line(text, "t1_secs"@, value);
    lemma_name_t2_secs();
    lemma_last_line(text, "t2_secs"@, value);
    lemma_name_obtained_unix();
    lemma_last_line(text, "obtained_unix"@, value);
}

proof fn lemma_last_line(text: Seq<char>, key: Seq<char>, value: Seq<char>)
    requires
        plain_key(key),
        plain_value(value),
    ensures
        after_lines(pieces(text.push('\n') + (key.push('=') + value), '\n')) == after_entry(
            after_lines(pieces(text, '\n')),
            key,
            value,
        ),
{
    let line = entry(key, value);
    let before = pieces(text, '\n');
    lemma_entry_line(after_lines(before), key, value);
    lemma_pieces_join(text, '\n', line);
    lemma_pieces_single(line, '\n');
    assert((before + seq![line]).drop_last() =~= before);
    assert((before + seq![line]).last() == line);
}

/// A blank line, one that starts with a hash sign, white space before it or not, and one without an
/// equals sign say nothing.
pub proof fn law_silent_lines(text: Seq<char>, line: Seq<char>)
    requires
        !line.contains('\n'),
        trimmed(line).len() == 0 || trimmed(line)[0] == '#' || !trimmed(line).contains('='),
    ensures
        after_lines(pieces(text.push('\n') + line, '\n')) == after_lines(pieces(text, '\n')),
{
    let before = pieces(text, '\n');
    lemma_pieces_join(text, '\n', line);
    lemma_pieces_single(line, '\n');
    assert((before + seq![line]).drop_last() =~= before);
    assert((before + seq![line]).last() == line);
}

/// White space around a line makes no difference.
pub proof fn law_lines_are_trimmed(saved: Saved, line: Seq<char>, other: Seq<char>)
    requires
        trimmed(line) == trimmed(other),
    ensures
        after_line(saved, line) == after_line(saved, other),
{
}

/// A line with any other name says nothing.
pub proof fn law_unknown_names(saved: Saved, name: Seq<char>, value: Seq<char>)
    requires
        name != "iface"@,
        name != "ip"@,
        name != "prefix"@,
        name != "server"@,
        name != "routers"@,
        name != "dns"@,
        name != "lease_secs"@,
        name != "t1_secs"@,
        name != "t2_secs"@,
        name != "obtained_unix"@,
    ensures
        after_entry(saved, name, value) == saved,
{
}

/// An empty file says nothing: no address, no prefix, no server, no routers and name servers, an
/// hour with its usual times, and the start of 1970.
pub proof fn law_empty_file()
    ensures
        ({
            let s = after_lines(pieces(Seq::empty(), '\n'));
            &&& s.iface.len() == 0 && s.ip is None && s.prefix is None && s.server is None
            &&& s.routers.len() == 0 && s.dns.len() == 0
            &&& s.lease_secs == 3600 && s.t1_secs == 1800 && s.t2_secs == 3150 && s.obtained == 0
        }),
{
    let lines = pieces(Seq::empty(), '\n');
    assert(lines.len() == 1 && lines.last().len() == 0);
    assert(lines.drop_last() =~= Seq::<Seq<char>>::empty());
    assert(after_lines(lines.drop_last()) == nothing_saved());
}

/// A lease file is one where it says the address, the prefix and the server, and then it gives back
/// all that it says; else the first of the three that is missing is the error.
pub proof fn law_lease_from_file(text: Seq<char>)
    ensures
        ({
            let said = after_lines(pieces(text, '\n'));
            match lease_value(text) {
                Ok((iface, lease, obtained)) => {
                    &&& said.ip == Some(lease.ip)
                    &&& said.prefix == Some(lease.prefix)
                    &&& said.server == Some(lease.server)
                    &&& iface == said.iface && obtained == said.obtained
                    &&& lease.routers == said.routers && lease.dns == said.dns
                    &&& lease.lease_secs == said.lease_secs
                    &&& lease.t1_secs == said.t1_secs && lease.t2_secs == said.t2_secs
                },
                Err(LeaseError::MissingIp) => said.ip is None,
                Err(LeaseError::MissingPrefix) => said.ip is Some && said.prefix is None,
                Err(LeaseError::MissingServer) => said.ip is Some && said.prefix is Some
                    && said.server is None,
            }
        }),
{
}

/// Every line is written whole, one behind the other, with a line feed at its end.
pub proof fn law_lines_are_written(lines: Seq<Seq<char>>, line: Seq<char>)
    ensures
        with_line_feeds(Seq::empty()).len() == 0,
        with_line_feeds(lines.push(line)) == with_line_feeds(lines) + line + seq!['\n'],
{
    assert(lines.push(line).drop_last() =~= lines);
    assert(with_line_feeds(lines) + line.push('\n') =~= with_line_feeds(lines) + line + seq!['\n']);
}

/// A line says that what stands before its first equals sign has the value behind it.
pub proof fn law_line_is_name_and_value(
    saved: Saved,
    line: Seq<char>,
    name: Seq<char>,
    value: Seq<char>,
)
    requires
        trimmed(line) == name.push('=') + value,
        !name.contains('='),
        name.len() > 0 ==> name[0] != '#',
    ensures
        after_line(saved, line) == after_entry(saved, name, value),
{
    lemma_cut(name, '=', value);
    if name.len() > 0 {
        assert(trimmed(line)[0] == name[0]);
    } else {
        assert(trimmed(line)[0] == '=');
    }
}

} // verus!
