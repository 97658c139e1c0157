//! IPv4 addresses and network masks.

use crate::number::{
    decimal, lemma_decimal_digits, lemma_decimal_reads_back, number_value, parse_number,
    push_decimal, NumberError,
};
use crate::text::{
    lemma_pieces_join, lemma_pieces_single, lemma_words_push, pieces, same_text, split,
    split_words, texts, words,
};
use vstd::arithmetic::power2::{
    lemma2_to64, lemma_pow2_adds, lemma_pow2_pos, lemma_pow2_unfold, pow2,
};
use vstd::bits::lemma_u32_shl_is_mul;
use vstd::prelude::*;

verus! {

/// An IPv4 address as the number whose most significant byte is the first octet.
#[derive(Clone, Copy, Debug, PartialEq, Eq, Structural)]
pub struct Ipv4Addr {
    pub bits: u32,
}

impl Ipv4Addr {
    /// The first octet.
    pub open spec fn first(self) -> nat {
        (self.bits / 0x100_0000) as nat
    }

    /// The second octet.
    pub open spec fn second(self) -> nat {
        (self.bits / 0x1_0000 % 0x100) as nat
    }

    /// The third octet.
    pub open spec fn third(self) -> nat {
        (self.bits / 0x100 % 0x100) as nat
    }

    /// The fourth octet.
    pub open spec fn fourth(self) -> nat {
        (self.bits % 0x100) as nat
    }

    /// The address `a.b.c.d`.
    pub fn new(a: u8, b: u8, c: u8, d: u8) -> (r: Ipv4Addr)
        ensures
            r.first() == a,
            r.second() == b,
            r.third() == c,
            r.fourth() == d,
            r.bits == a * 0x100_0000 + b * 0x1_0000 + c * 0x100 + d,
    {
        let bits: u32 = a as u32 * 0x100_0000 + b as u32 * 0x1_0000 + c as u32 * 0x100 + d as u32;
        assert(bits == a * 0x100_0000 + b * 0x1_0000 + c * 0x100 + d ==> bits / 0x100_0000 == a
            && bits / 0x1_0000 % 0x100 == b && bits / 0x100 % 0x100 == c && bits % 0x100 == d)
            by (bit_vector);
        Ipv4Addr { bits }
    }

    /// The four octets in order.
    pub fn octets(&self) -> (r: [u8; 4])
        ensures
            r@ == octets_of(*self),
    {
        let r: [u8; 4] = [
            (self.bits / 0x100_0000) as u8,
            (self.bits / 0x1_0000 % 0x100) as u8,
            (self.bits / 0x100 % 0x100) as u8,
            (self.bits % 0x100) as u8,
        ];
        proof {
            assert(r@ =~= octets_of(*self));
        }
        r
    }

    /// Whether this is `0.0.0.0`.
    pub fn is_unspecified(&self) -> (r: bool)
        ensures
            r == (self.bits == 0),
    {
        self.bits == 0
    }
}

/// The four octets in order.
pub open spec fn octets_of(a: Ipv4Addr) -> Seq<u8> {
    seq![a.first() as u8, a.second() as u8, a.third() as u8, a.fourth() as u8]
}

/// The address in dotted decimal notation.
pub open spec fn dotted(a: Ipv4Addr) -> Seq<char> {
    decimal(a.first()).push('.') + (decimal(a.second()).push('.') + (decimal(a.third()).push('.')
        + decimal(a.fourth())))
}

/// The address whose dotted decimal notation is `s`, if `s` is one.
pub open spec fn address_value(s: Seq<char>) -> Option<Ipv4Addr> {
    if exists|a: Ipv4Addr| dotted(a) == s {
        Some(choose|a: Ipv4Addr| dotted(a) == s)
    } else {
        None
    }
}

/// The addresses in dotted notation with a space between any two.
pub open spec fn spaced(addrs: Seq<Ipv4Addr>) -> Seq<char>
    decreases addrs.len(),
{
    if addrs.len() == 0 {
        Seq::<char>::empty()
    } else if addrs.len() == 1 {
        dotted(addrs[0])
    } else {
        spaced(addrs.drop_last()).push(' ') + dotted(addrs.last())
    }
}

/// The addresses among `ws`, in order.
pub open spec fn addresses_among(ws: Seq<Seq<char>>) -> Seq<Ipv4Addr>
    decreases ws.len(),
{
    if ws.len() == 0 {
        Seq::<Ipv4Addr>::empty()
    } else {
        match address_value(ws.last()) {
            Some(a) => addresses_among(ws.drop_last()).push(a),
            None => addresses_among(ws.drop_last()),
        }
    }
}

/// The number of one bits of `n`.
pub open spec fn ones(n: nat) -> nat
    decreases n,
{
    if n == 0 {
        0
    } else {
        n % 2 + ones(n / 2)
    }
}

/// The mask with `prefix` leading one bits, all of them from 32 on.
pub open spec fn mask_bits(prefix: nat) -> nat {
    if prefix >= 32 {
        0xffff_ffff
    } else {
        (0x1_0000_0000 - pow2((32 - prefix) as nat)) as nat
    }
}

proof fn lemma_pow2_below(a: nat, b: nat)
    requires
        a <= b,
    ensures
        0 < pow2(a) <= pow2(b),
    decreases b - a,
{
    lemma_pow2_pos(a);
    if a < b {
        lemma_pow2_below(a + 1, b);
        lemma_pow2_unfold(a + 1);
    }
}

proof fn lemma_octet_has_no_dot(n: nat)
    ensures
        !decimal(n).contains('.'),
{
    lemma_decimal_digits(n);
}

/// The dots of a dotted address stand between the decimal octets.
pub proof fn lemma_dotted_pieces(a: Ipv4Addr)
    ensures
        pieces(dotted(a), '.') == seq![
            decimal(a.first()),
            decimal(a.second()),
            decimal(a.third()),
            decimal(a.fourth()),
        ],
{
    let (p, q, r, s) = (
        decimal(a.first()),
        decimal(a.second()),
        decimal(a.third()),
        decimal(a.fourth()),
    );
    lemma_octet_has_no_dot(a.first());
    lemma_octet_has_no_dot(a.second());
    lemma_octet_has_no_dot(a.third());
    lemma_octet_has_no_dot(a.fourth());
    lemma_pieces_single(p, '.');
    lemma_pieces_single(q, '.');
    lemma_pieces_single(r, '.');
    lemma_pieces_single(s, '.');
    lemma_pieces_join(r, '.', s);
    lemma_pieces_join(q, '.', r.push('.') + s);
    lemma_pieces_join(p, '.', q.push('.') + (r.push('.') + s));
    assert(pieces(dotted(a), '.') =~= seq![p, q, r, s]);
}

/// The octets make up the address.
pub proof fn lemma_octets_compose(a: Ipv4Addr)
    ensures
        a.bits == a.first() * 0x100_0000 + a.second() * 0x1_0000 + a.third() * 0x100 + a.fourth(),
        a.first() <= 255,
        a.second() <= 255,
        a.third() <= 255,
        a.fourth() <= 255,
{
    let n = a.bits;
    assert(n == n / 0x100_0000 * 0x100_0000 + n / 0x1_0000 % 0x100 * 0x1_0000 + n / 0x100 % 0x100
        * 0x100 + n % 0x100) by (bit_vector);
}

/// Two addresses with the same dotted notation are the same.
pub proof fn lemma_dotted_injective(a: Ipv4Addr, b: Ipv4Addr)
    requires
        dotted(a) == dotted(b),
    ensures
        a == b,
{
    lemma_octets_compose(a);
    lemma_octets_compose(b);
    lemma_dotted_pieces(a);
    lemma_dotted_pieces(b);
    let s = pieces(dotted(a), '.');
    assert(s[0] == decimal(a.first()) && s[0] == decimal(b.first()));
    assert(s[1] == decimal(a.second()) && s[1] == decimal(b.second()));
    assert(s[2] == decimal(a.third()) && s[2] == decimal(b.third()));
    assert(s[3] == decimal(a.fourth()) && s[3] == decimal(b.fourth()));
    lemma_decimal_reads_back(a.first(), 255);
    lemma_decimal_reads_back(b.first(), 255);
    lemma_decimal_reads_back(a.second(), 255);
    lemma_decimal_reads_back(b.second(), 255);
    lemma_decimal_reads_back(a.third(), 255);
    lemma_decimal_reads_back(b.third(), 255);
    lemma_decimal_reads_back(a.fourth(), 255);
    lemma_decimal_reads_back(b.fourth(), 255);
}

/// Reading an address back from its dotted notation gives the address.
pub proof fn lemma_dotted_reads_back(a: Ipv4Addr)
    ensures
        address_value(dotted(a)) == Some(a),
{
    let b = choose|b: Ipv4Addr| dotted(b) == dotted(a);
    lemma_dotted_injective(a, b);
}

/// Appends the dotted notation of `a`.
pub fn push_dotted(out: &mut String, a: Ipv4Addr)
    ensures
        final(out)@ == old(out)@ + dotted(a),
{
    push_decimal(out, (a.bits / 0x100_0000) as u64);
    out.push('.');
    push_decimal(out, (a.bits / 0x1_0000 % 0x100) as u64);
    out.push('.');
    push_decimal(out, (a.bits / 0x100 % 0x100) as u64);
    out.push('.');
    push_decimal(out, (a.bits % 0x100) as u64);
    proof {
        assert(out@ =~= old(out)@ + dotted(a));
    }
}

/// The dotted notation of `a`.
pub fn dotted_text(a: Ipv4Addr) -> (r: String)
    ensures
        r@ == dotted(a),
{
    let mut out: String = String::new();
    push_dotted(&mut out, a);
    proof {
        assert(out@ =~= dotted(a));
    }
    out
}

/// The addresses in dotted notation with a space between any two.
pub fn spaced_text(addrs: &Vec<Ipv4Addr>) -> (r: String)
    ensures
        r@ == spaced(addrs@),
{
    let mut out: String = String::new();
    let mut i: usize = 0;
    proof {
        assert(out@ =~= spaced(addrs@.take(0)));
    }
    while i < addrs.len()
        invariant
            i <= addrs.len(),
            out@ == spaced(addrs@.take(i as int)),
        decreases addrs.len() - i,
    {
        proof {
            assert(addrs@.take(i + 1).drop_last() =~= addrs@.take(i as int));
        }
        if i > 0 {
            out.push(' ');
        }
        let ghost before = out@;
        push_dotted(&mut out, addrs[i]);
        proof {
            if i == 0 {
                assert(before =~= Seq::<char>::empty());
                assert(out@ =~= dotted(addrs@[0]));
            }
        }
        i += 1;
    }
    proof {
        assert(addrs@.take(addrs@.len() as int) =~= addrs@);
    }
    out
}

/// Reads an address in dotted decimal notation.
pub fn parse_addr(s: &[char]) -> (r: Option<Ipv4Addr>)
    ensures
        r == address_value(s@),
        r matches Some(a) ==> dotted(a) == s@,
        r is None ==> forall|a: Ipv4Addr| dotted(a) != s@,
{
    let found: Option<Ipv4Addr> = compose(s);
    proof {
        assert forall|a: Ipv4Addr| dotted(a) == s@ implies found == Some(a) by {
            lemma_octets_compose(a);
        }
    }
    match found {
        Some(a) => {
            let text: String = dotted_text(a);
            if same_text(s, text.as_str()) {
                proof {
                    lemma_dotted_reads_back(a);
                }
                Some(a)
            } else {
                None
            }
        },
        None => None,
    }
}

/// The address that four numbers between dots would make.
fn compose(s: &[char]) -> (r: Option<Ipv4Addr>)
    ensures
        forall|a: Ipv4Addr| dotted(a) == s@ ==> r == Some(a),
{
    let parts: Vec<Vec<char>> = split(s, '.');
    let ghost view = texts(parts@);
    proof {
        assert forall|a: Ipv4Addr| dotted(a) == s@ implies view.len() == 4 && number_value(
            view[0],
            10,
            255,
        ) == Ok::<nat, NumberError>(a.first()) && number_value(view[1], 10, 255) == Ok::<
            nat,
            NumberError,
        >(a.second()) && number_value(view[2], 10, 255) == Ok::<nat, NumberError>(a.third())
            && number_value(view[3], 10, 255) == Ok::<nat, NumberError>(a.fourth()) by {
            lemma_octets_compose(a);
            lemma_dotted_pieces(a);
            lemma_decimal_reads_back(a.first(), 255);
            lemma_decimal_reads_back(a.second(), 255);
            lemma_decimal_reads_back(a.third(), 255);
            lemma_decimal_reads_back(a.fourth(), 255);
        }
    }
    if parts.len() != 4 {
        return None;
    }
    proof {
        assert(forall|i: int| 0 <= i < 4 ==> view[i] == parts@[i]@);
    }
    match (
        parse_number(&parts[0], 10, 255),
        parse_number(&parts[1], 10, 255),
        parse_number(&parts[2], 10, 255),
        parse_number(&parts[3], 10, 255),
    ) {
        (Ok(a), Ok(b), Ok(c), Ok(d)) => {
            let r: Ipv4Addr = Ipv4Addr::new(a as u8, b as u8, c as u8, d as u8);
            proof {
                assert forall|x: Ipv4Addr| dotted(x) == s@ implies x == r by {
                    lemma_octets_compose(x);
                    lemma_octets_compose(r);
                }
            }
            Some(r)
        },
        _ => None,
    }
}

/// The addresses among the words of `s`, in order; other words are left out.
pub fn parse_addrs(s: &[char]) -> (r: Vec<Ipv4Addr>)
    ensures
        r@ == addresses_among(words(s@)),
{
    let ws: Vec<Vec<char>> = split_words(s);
    let ghost view = texts(ws@);
    let mut out: Vec<Ipv4Addr> = Vec::new();
    let mut i: usize = 0;
    proof {
        assert(out@ =~= addresses_among(view.take(0)));
    }
    while i < ws.len()
        invariant
            i <= ws.len(),
            view == texts(ws@),
            out@ == addresses_among(view.take(i as int)),
        decreases ws.len() - i,
    {
        proof {
            assert(view.take(i + 1).drop_last() =~= view.take(i as int));
            assert(view.take(i + 1).last() == ws@[i as int]@);
        }
        if let Some(a) = parse_addr(&ws[i]) {
            out.push(a);
        }
        i += 1;
    }
    proof {
        assert(view.take(view.len() as int) =~= view);
    }
    out
}

/// Reading a spaced list of addresses back gives the list.
pub proof fn lemma_spaced_reads_back(addrs: Seq<Ipv4Addr>)
    ensures
        addresses_among(words(spaced(addrs))) == addrs,
        addrs.len() > 0 ==> spaced(addrs).len() > 0,
        forall|k: int|
            0 <= k < spaced(addrs).len() ==> (#[trigger] spaced(addrs)[k] == ' ' || spaced(
                addrs,
            )[k] == '.' || '0' <= spaced(addrs)[k] <= '9'),
        addrs.len() > 0 ==> '0' <= spaced(addrs).last() <= '9',
    decreases addrs.len(),
{
    if addrs.len() == 0 {
        assert(addresses_among(words(spaced(addrs))) =~= addrs);
    } else {
        let a = addrs.last();
        let before = spaced(addrs.drop_last());
        lemma_dotted_chars(a);
        lemma_dotted_reads_back(a);
        lemma_words_push(before, dotted(a));
        if addrs.len() == 1 {
            assert(spaced(addrs) == dotted(a));
            let ws = words(spaced(addrs));
            assert(ws =~= seq![dotted(a)]);
            assert(ws.drop_last() =~= Seq::<Seq<char>>::empty());
            assert(addresses_among(ws.drop_last()) =~= Seq::<Ipv4Addr>::empty());
            assert(addresses_among(ws) =~= addrs);
        } else {
            lemma_spaced_reads_back(addrs.drop_last());
            let ws = words(spaced(addrs));
            assert(ws == words(before).push(dotted(a)));
            assert(ws.drop_last() =~= words(before));
            assert(addresses_among(ws) =~= addrs);
        }
    }
}

/// A dotted address is made of digits and dots, and ends in a digit.
pub proof fn lemma_dotted_chars(a: Ipv4Addr)
    ensures
        dotted(a).len() > 0,
        forall|k: int|
            0 <= k < dotted(a).len() ==> (#[trigger] dotted(a)[k] == '.' || '0' <= dotted(a)[k]
                <= '9'),
        '0' <= dotted(a).last() <= '9',
        '0' <= dotted(a)[0] <= '9',
{
    lemma_decimal_digits(a.first());
    lemma_decimal_digits(a.second());
    lemma_decimal_digits(a.third());
    lemma_decimal_digits(a.fourth());
    let (p, q, r, s) = (
        decimal(a.first()),
        decimal(a.second()),
        decimal(a.third()),
        decimal(a.fourth()),
    );
    let rs = r.push('.') + s;
    let qrs = q.push('.') + rs;
    assert(forall|k: int| 0 <= k < rs.len() ==> (#[trigger] rs[k] == '.' || '0' <= rs[k] <= '9'));
    assert(forall|k: int|
        0 <= k < qrs.len() ==> (#[trigger] qrs[k] == '.' || '0' <= qrs[k] <= '9'));
    assert(dotted(a).last() == s.last());
    assert(dotted(a)[0] == p[0]);
}

/// The number of one bits of a mask.
pub fn mask_to_prefix(mask: Ipv4Addr) -> (r: u8)
    ensures
        r == ones(mask.bits as nat),
        r <= 32,
{
    let mut left: u32 = mask.bits;
    let mut count: u8 = 0;
    let mut i: u8 = 0;
    proof {
        lemma2_to64();
    }
    while left > 0
        invariant
            count + ones(left as nat) == ones(mask.bits as nat),
            count <= i <= 32,
            left < pow2((32 - i) as nat),
        decreases left,
    {
        proof {
            if i == 32 {
                lemma2_to64();
            } else {
                lemma_pow2_unfold((32 - i) as nat);
            }
        }
        count += (left % 2) as u8;
        left = left / 2;
        i += 1;
    }
    count
}

/// The mask with `prefix` leading one bits, in dotted notation.
pub fn prefix_to_dotted(prefix: u8) -> (r: String)
    ensures
        mask_bits(prefix as nat) <= u32::MAX,
        r@ == dotted(Ipv4Addr { bits: mask_bits(prefix as nat) as u32 }),
{
    let bits: u32 = if prefix >= 32 {
        u32::MAX
    } else if prefix == 0 {
        proof {
            lemma2_to64();
        }
        0
    } else {
        let low: u32 = (32 - prefix) as u32;
        proof {
            lemma2_to64();
            lemma_pow2_below(low as nat, 31);
            lemma_u32_shl_is_mul(1, low);
        }
        u32::MAX - ((1u32 << low) - 1)
    };
    dotted_text(Ipv4Addr { bits })
}

proof fn lemma_ones_shift(k: nat, m: nat)
    ensures
        ones(pow2(k) * m) == ones(m),
    decreases k,
{
    lemma2_to64();
    if k > 0 {
        lemma_ones_shift((k - 1) as nat, m);
        lemma_pow2_unfold(k);
        let half = pow2((k - 1) as nat) * m;
        assert(pow2(k) * m == 2 * half) by (nonlinear_arith)
            requires
                pow2(k) == 2 * pow2((k - 1) as nat),
                half == pow2((k - 1) as nat) * m,
        ;
        assert((2 * half) % 2 == 0 && (2 * half) / 2 == half);
    } else {
        assert(pow2(0) * m == m);
    }
}

proof fn lemma_ones_full(k: nat)
    ensures
        ones((pow2(k) - 1) as nat) == k,
    decreases k,
{
    lemma2_to64();
    if k > 0 {
        lemma_ones_full((k - 1) as nat);
        lemma_pow2_unfold(k);
        lemma_pow2_pos((k - 1) as nat);
    }
}

/// Counting the one bits of the mask that a prefix length stands for gives the prefix length,
/// and 32 for every longer one.
pub proof fn law_prefix_of_mask(prefix: nat)
    ensures
        ones(mask_bits(prefix)) == if prefix <= 32 {
            prefix
        } else {
            32
        },
{
    lemma2_to64();
    if prefix >= 32 {
        lemma_ones_full(32);
    } else {
        let low = (32 - prefix) as nat;
        lemma_ones_full(prefix);
        lemma_ones_shift(low, (pow2(prefix) - 1) as nat);
        lemma_pow2_adds(low, prefix);
        lemma_pow2_pos(prefix);
        assert(pow2(low) * (pow2(prefix) - 1) == pow2(low) * pow2(prefix) - pow2(low))
            by (nonlinear_arith);
    }
}

/// A mask whose one bits all lead is written as itself by way of its prefix length.
pub proof fn law_mask_of_prefix(mask: Ipv4Addr, prefix: nat)
    requires
        mask.bits == mask_bits(prefix),
    ensures
        mask_bits(ones(mask.bits as nat)) == mask.bits,
{
    law_prefix_of_mask(prefix);
}

/// Four bytes that make up an address, the most significant first, are its octets.
pub proof fn law_octets(ip: Ipv4Addr, a: u8, b: u8, c: u8, d: u8)
    ensures
        ip.bits == a * 0x100_0000 + b * 0x1_0000 + c * 0x100 + d <==> octets_of(ip) == seq![
            a,
            b,
            c,
            d,
        ],
{
    lemma_octets_compose(ip);
    let n = ip.bits;
    if n == a * 0x100_0000 + b * 0x1_0000 + c * 0x100 + d {
        assert(n == a * 0x100_0000 + b * 0x1_0000 + c * 0x100 + d ==> n / 0x100_0000 == a && n
            / 0x1_0000 % 0x100 == b && n / 0x100 % 0x100 == c && n % 0x100 == d) by (bit_vector);
        assert(octets_of(ip) =~= seq![a, b, c, d]);
    }
    if octets_of(ip) == seq![a, b, c, d] {
        let s = seq![a, b, c, d];
        assert(s[0] == a && s[1] == b && s[2] == c && s[3] == d);
        assert(octets_of(ip)[0] == ip.first() && octets_of(ip)[1] == ip.second() && octets_of(ip)[2]
            == ip.third() && octets_of(ip)[3] == ip.fourth());
    }
}

/// The dotted notation of an address is its octets in decimal with dots between.
pub proof fn law_dotted(a: u8, b: u8, c: u8, d: u8)
    ensures
        ({
            let n = (a * 0x100_0000 + b * 0x1_0000 + c * 0x100 + d) as u32;
            dotted(Ipv4Addr { bits: n }) == decimal(a as nat).push('.') + decimal(b as nat).push('.')
                + decimal(c as nat).push('.') + decimal(d as nat)
        }),
{
    let n = (a * 0x100_0000 + b * 0x1_0000 + c * 0x100 + d) as u32;
    let ip = Ipv4Addr { bits: n };
    law_octets(ip, a, b, c, d);
    let s = seq![a, b, c, d];
    assert(s[0] == a && s[1] == b && s[2] == c && s[3] == d);
    lemma_octets_compose(ip);
    assert(octets_of(ip)[0] == ip.first() && octets_of(ip)[1] == ip.second() && octets_of(ip)[2]
        == ip.third() && octets_of(ip)[3] == ip.fourth());
    assert(dotted(ip) =~= decimal(a as nat).push('.') + decimal(b as nat).push('.') + decimal(
        c as nat,
    ).push('.') + decimal(d as nat));
}

/// A text is read as an address exactly where it is the address's dotted notation, so nothing else
/// than four numbers up to 255 without leading zeros and with dots between is one.
pub proof fn law_address_is_its_notation(s: Seq<char>, a: Ipv4Addr)
    ensures
        address_value(s) == Some(a) <==> s == dotted(a),
{
    lemma_dotted_reads_back(a);
}

/// A list of addresses is written as their dotted notations with a space between any two, and read
/// back as the list.
pub proof fn law_spaced(addrs: Seq<Ipv4Addr>, a: Ipv4Addr)
    ensures
        spaced(Seq::empty()) == Seq::<char>::empty(),
        spaced(seq![a]) == dotted(a),
        addrs.len() > 0 ==> spaced(addrs.push(a)) == spaced(addrs).push(' ') + dotted(a),
        addresses_among(words(spaced(addrs))) == addrs,
{
    lemma_spaced_reads_back(addrs);
    assert(addrs.push(a).drop_last() =~= addrs);
}

/// Of a list of words those that are addresses are taken, in their order, and no other.
pub proof fn law_addresses_among(ws: Seq<Seq<char>>, w: Seq<char>)
    ensures
        addresses_among(Seq::empty()).len() == 0,
        (forall|a: Ipv4Addr| dotted(a) != w) ==> addresses_among(ws.push(w)) == addresses_among(ws),
        forall|a: Ipv4Addr| #[trigger]
            dotted(a) == w ==> addresses_among(ws.push(w)) == addresses_among(ws).push(a),
{
    assert(ws.push(w).drop_last() =~= ws);
    assert forall|a: Ipv4Addr| #[trigger] dotted(a) == w implies addresses_among(ws.push(w))
        == addresses_among(ws).push(a) by {
        lemma_dotted_reads_back(a);
    }
}

/// Doubling a number keeps its one bits, and one more than the double has one more.
pub proof fn law_ones(n: nat)
    ensures
        ones(0) == 0,
        ones(2 * n) == ones(n),
        ones(2 * n + 1) == ones(n) + 1,
{
    assert((2 * n) % 2 == 0 && (2 * n) / 2 == n);
    assert((2 * n + 1) % 2 == 1 && (2 * n + 1) / 2 == n);
}

/// The mask of a longer prefix has the next lower bit too; without a prefix it is empty, and from 32
/// on it is full.
pub proof fn law_mask_bits(prefix: nat)
    ensures
        mask_bits(0) == 0,
        prefix < 32 ==> mask_bits(prefix + 1) == mask_bits(prefix) + pow2((31 - prefix) as nat),
        prefix >= 32 ==> mask_bits(prefix) == 0xffff_ffff,
{
    lemma2_to64();
    if prefix < 32 {
        lemma_pow2_unfold((32 - prefix) as nat);
        lemma_pow2_below((32 - prefix) as nat, 32);
    }
}

} // verus!
