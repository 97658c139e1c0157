//! Asking the network whether another host has an address.

use crate::addr::{law_octets, lemma_octets_compose, octets_of, Ipv4Addr};
use vstd::prelude::*;

verus! {

/// The length of a frame that holds an ARP message for IPv4 over Ethernet.
pub const FRAME_LEN: usize = 42;

/// How many nanoseconds after the probe a claim is waited for, in all.
pub const PROBE_WAIT_NANOS: u64 = 1_000_000_000;

/// The six bytes of a hardware address that go into a frame; zeros where there are fewer.
pub open spec fn frame_mac(mac: Seq<u8>) -> Seq<u8> {
    if mac.len() >= 6 {
        mac.take(6)
    } else {
        Seq::new(6, |i: int| 0u8)
    }
}

/// The broadcast that asks who has `ip`, from the hardware address `mac` and no address.
pub open spec fn probe_bytes(ip: Ipv4Addr, mac: Seq<u8>) -> Seq<u8> {
    Seq::new(6, |i: int| 0xffu8) + frame_mac(mac) + seq![
        0x08u8,
        0x06,
        0x00,
        0x01,
        0x08,
        0x00,
        6,
        4,
        0x00,
        0x01,
    ] + frame_mac(mac) + Seq::new(10, |i: int| 0u8) + octets_of(ip)
}

/// Whether a frame is an ARP reply by which a host other than the one with `mac` has `ip`.
pub open spec fn claims(frame: Seq<u8>, ip: Ipv4Addr, mac: Seq<u8>) -> bool {
    &&& frame.len() >= FRAME_LEN
    &&& frame.subrange(12, 14) == seq![0x08u8, 0x06u8]
    &&& frame.subrange(20, 22) == seq![0x00u8, 0x02u8]
    &&& frame.subrange(28, 32) == octets_of(ip)
    &&& frame.subrange(22, 28) != frame_mac(mac)
}

fn six(mac: &[u8]) -> (r: [u8; 6])
    ensures
        r@ == frame_mac(mac@),
{
    let r: [u8; 6] = if mac.len() >= 6 {
        [mac[0], mac[1], mac[2], mac[3], mac[4], mac[5]]
    } else {
        [0, 0, 0, 0, 0, 0]
    };
    proof {
        assert(r@ =~= frame_mac(mac@));
    }
    r
}

/// The frame that asks who has `ip`.
pub fn probe_frame(ip: Ipv4Addr, mac: &[u8]) -> (r: Vec<u8>)
    ensures
        r@ == probe_bytes(ip, mac@),
        r@.len() == FRAME_LEN,
{
    let mac: [u8; 6] = six(mac);
    let everyone: [u8; 6] = [0xff, 0xff, 0xff, 0xff, 0xff, 0xff];
    let request: [u8; 10] = [0x08, 0x06, 0x00, 0x01, 0x08, 0x00, 6, 4, 0x00, 0x01];
    let nobody: [u8; 10] = [0, 0, 0, 0, 0, 0, 0, 0, 0, 0];
    let target: [u8; 4] = ip.octets();
    let mut out: Vec<u8> = Vec::new();
    out.extend_from_slice(&everyone);
    out.extend_from_slice(&mac);
    out.extend_from_slice(&request);
    out.extend_from_slice(&mac);
    out.extend_from_slice(&nobody);
    out.extend_from_slice(&target);
    proof {
        assert(everyone@ =~= Seq::new(6, |i: int| 0xffu8));
        assert(nobody@ =~= Seq::new(10, |i: int| 0u8));
        assert(out@ =~= probe_bytes(ip, mac@));
    }
    out
}

fn same_bytes(frame: &[u8], from: usize, bytes: &[u8]) -> (r: bool)
    requires
        from + bytes.len() <= frame.len(),
    ensures
        r == (frame@.subrange(from as int, from + bytes@.len()) == bytes@),
{
    let mut i: usize = 0;
    while i < bytes.len()
        invariant
            i <= bytes.len(),
            from + bytes.len() <= frame.len(),
            forall|k: int| 0 <= k < i ==> frame@[from + k] == bytes@[k],
        decreases bytes.len() - i,
    {
        if frame[from + i] != bytes[i] {
            proof {
                let part = frame@.subrange(from as int, from + bytes@.len());
                assert(part[i as int] != bytes@[i as int]);
            }
            return false;
        }
        i += 1;
    }
    proof {
        assert(frame@.subrange(from as int, from + bytes@.len()) =~= bytes@);
    }
    true
}

/// Whether a frame is a reply by which another host has `ip`.
pub fn is_conflict(frame: &[u8], ip: Ipv4Addr, mac: &[u8]) -> (r: bool)
    ensures
        r == claims(frame@, ip, mac@),
{
    if frame.len() < FRAME_LEN {
        return false;
    }
    let ethertype: [u8; 2] = [0x08, 0x06];
    let reply: [u8; 2] = [0x00, 0x02];
    let target: [u8; 4] = ip.octets();
    let own: [u8; 6] = six(mac);
    proof {
        assert(ethertype@ =~= seq![0x08u8, 0x06u8]);
        assert(reply@ =~= seq![0x00u8, 0x02u8]);
    }
    same_bytes(frame, 12, &ethertype) && same_bytes(frame, 20, &reply) && same_bytes(
        frame,
        28,
        &target,
    ) && !same_bytes(frame, 22, &own)
}

/// What waiting for a frame has come to.
pub enum FrameArrival {
    /// The socket had nothing to give in time.
    Silent,
    /// The socket failed.
    Broken,
    /// A frame came.
    Frame(Vec<u8>),
}

/// What to do about it.
#[derive(Clone, Copy, Debug, PartialEq, Eq, Structural)]
pub enum ProbeStep {
    /// Wait for another frame.
    Wait,
    /// Nobody else has the address.
    Clear,
    /// Another host has the address.
    Conflict,
    /// Give up on the socket's error.
    Failed,
}

/// What to do about an arrival `elapsed` nanoseconds after the frame that asks who has `ip` was sent
/// from `mac`. Frames that claim nothing do not make the wait any longer.
pub fn probe_step(arrival: FrameArrival, elapsed: u64, ip: Ipv4Addr, mac: &[u8]) -> (r: ProbeStep)
    ensures
        r == match arrival {
            FrameArrival::Silent => ProbeStep::Clear,
            FrameArrival::Broken => ProbeStep::Failed,
            FrameArrival::Frame(frame) => if claims(frame@, ip, mac@) {
                ProbeStep::Conflict
            } else if elapsed >= PROBE_WAIT_NANOS {
                ProbeStep::Clear
            } else {
                ProbeStep::Wait
            },
        },
{
    match arrival {
        FrameArrival::Silent => ProbeStep::Clear,
        FrameArrival::Broken => ProbeStep::Failed,
        FrameArrival::Frame(frame) => if is_conflict(frame.as_slice(), ip, mac) {
            ProbeStep::Conflict
        } else if elapsed >= PROBE_WAIT_NANOS {
            ProbeStep::Clear
        } else {
            ProbeStep::Wait
        },
    }
}

/// How many nanoseconds of the wait for a claim are left `elapsed` nanoseconds after the probe.
pub fn probe_left(elapsed: u64) -> (r: u64)
    ensures
        r == if elapsed < PROBE_WAIT_NANOS {
            (PROBE_WAIT_NANOS - elapsed) as u64
        } else {
            0
        },
{
    if elapsed < PROBE_WAIT_NANOS {
        PROBE_WAIT_NANOS - elapsed
    } else {
        0
    }
}

/// A probe, the client's own or another's, is never taken for a claim on an address.
pub proof fn law_probe_is_no_claim(asked: Ipv4Addr, from: Seq<u8>, ip: Ipv4Addr, mac: Seq<u8>)
    ensures
        !claims(probe_bytes(asked, from), ip, mac),
{
    let frame = probe_bytes(asked, from);
    assert(frame[21] == 0x01);
    assert(frame.subrange(20, 22)[1] == frame[21]);
    assert(seq![0x00u8, 0x02u8][1] == 0x02);
}

/// A frame claims an address for another host exactly where it has at least 42 bytes, is ARP over
/// Ethernet, is a reply, names the address as its sender's, and its sender's hardware address differs
/// from the client's in any of its six bytes.
pub proof fn law_conflict_is_any_other_sender(frame: Seq<u8>, ip: Ipv4Addr, mac: Seq<u8>)
    requires
        mac.len() >= 6,
    ensures
        claims(frame, ip, mac) <==> {
            &&& frame.len() >= 42
            &&& frame[12] == 0x08 && frame[13] == 0x06
            &&& frame[20] == 0x00 && frame[21] == 0x02
            &&& frame[28] * 0x100_0000 + frame[29] * 0x1_0000 + frame[30] * 0x100 + frame[31]
                == ip.bits
            &&& (frame[22] != mac[0] || frame[23] != mac[1] || frame[24] != mac[2] || frame[25]
                != mac[3] || frame[26] != mac[4] || frame[27] != mac[5])
        },
{
    lemma_claims(frame, ip, mac);
    assert(frame_mac(mac) =~= seq![mac[0], mac[1], mac[2], mac[3], mac[4], mac[5]]);
}

proof fn lemma_claims(frame: Seq<u8>, ip: Ipv4Addr, mac: Seq<u8>)
    ensures
        ({
            let own = frame_mac(mac);
            claims(frame, ip, mac) <==> {
                &&& frame.len() >= 42
                &&& frame[12] == 0x08 && frame[13] == 0x06
                &&& frame[20] == 0x00 && frame[21] == 0x02
                &&& frame[28] * 0x100_0000 + frame[29] * 0x1_0000 + frame[30] * 0x100 + frame[31]
                    == ip.bits
                &&& (frame[22] != own[0] || frame[23] != own[1] || frame[24] != own[2] || frame[25]
                    != own[3] || frame[26] != own[4] || frame[27] != own[5])
            }
        }),
{
    if frame.len() >= 42 {
        let own = frame_mac(mac);
        let kind = frame.subrange(12, 14);
        let oper = frame.subrange(20, 22);
        let from = frame.subrange(28, 32);
        let hard = frame.subrange(22, 28);
        assert(kind[0] == frame[12] && kind[1] == frame[13]);
        assert(kind == seq![0x08u8, 0x06u8] <==> kind[0] == 0x08 && kind[1] == 0x06) by {
            if kind[0] == 0x08 && kind[1] == 0x06 {
                assert(kind =~= seq![0x08u8, 0x06u8]);
            }
        }
        assert(oper[0] == frame[20] && oper[1] == frame[21]);
        assert(oper == seq![0x00u8, 0x02u8] <==> oper[0] == 0x00 && oper[1] == 0x02) by {
            if oper[0] == 0x00 && oper[1] == 0x02 {
                assert(oper =~= seq![0x00u8, 0x02u8]);
            }
        }
        assert(hard == own <==> hard[0] == own[0] && hard[1] == own[1] && hard[2] == own[2]
            && hard[3] == own[3] && hard[4] == own[4] && hard[5] == own[5]) by {
            if hard[0] == own[0] && hard[1] == own[1] && hard[2] == own[2] && hard[3] == own[3]
                && hard[4] == own[4] && hard[5] == own[5] {
                assert(hard =~= own);
            }
        }
        assert(hard[0] == frame[22] && hard[1] == frame[23] && hard[2] == frame[24] && hard[3]
            == frame[25] && hard[4] == frame[26] && hard[5] == frame[27]);
        assert(from[0] == frame[28] && from[1] == frame[29] && from[2] == frame[30] && from[3]
            == frame[31]);
        lemma_octets_compose(ip);
        let (a, b, c, d) = (from[0], from[1], from[2], from[3]);
        if a * 0x100_0000 + b * 0x1_0000 + c * 0x100 + d == ip.bits {
            law_octets(ip, a, b, c, d);
            assert(from =~= octets_of(ip));
        }
    }
}

/// Without a hardware address of six bytes, a claim is a reply whose sender's is not all zeros.
pub proof fn law_conflict_without_own_address(frame: Seq<u8>, ip: Ipv4Addr, mac: Seq<u8>)
    requires
        mac.len() < 6,
    ensures
        claims(frame, ip, mac) <==> {
            &&& frame.len() >= 42
            &&& frame[12] == 0x08 && frame[13] == 0x06
            &&& frame[20] == 0x00 && frame[21] == 0x02
            &&& frame[28] * 0x100_0000 + frame[29] * 0x1_0000 + frame[30] * 0x100 + frame[31]
                == ip.bits
            &&& (frame[22] != 0 || frame[23] != 0 || frame[24] != 0 || frame[25] != 0 || frame[26]
                != 0 || frame[27] != 0)
        },
{
    lemma_claims(frame, ip, mac);
}

/// The probe is a broadcast from the client's hardware address that asks, with no sender address of
/// its own, who has the address.
pub proof fn law_probe_asks_for_the_address(ip: Ipv4Addr, mac: Seq<u8>)
    ensures
        ({
            let p = probe_bytes(ip, mac);
            &&& p.len() == 42
            &&& forall|i: int| 0 <= i < 6 ==> #[trigger] p[i] == 0xff
            &&& mac.len() >= 6 ==> forall|i: int|
                0 <= i < 6 ==> p[6 + i] == #[trigger] mac[i] && p[22 + i] == mac[i]
            &&& mac.len() < 6 ==> forall|i: int|
                6 <= i < 12 || 22 <= i < 28 ==> #[trigger] p[i] == 0
            &&& p[12] == 8 && p[13] == 6 && p[14] == 0 && p[15] == 1 && p[16] == 8 && p[17] == 0
            &&& p[18] == 6 && p[19] == 4 && p[20] == 0 && p[21] == 1
            &&& forall|i: int| 28 <= i < 38 ==> #[trigger] p[i] == 0
            &&& p[38] * 0x100_0000 + p[39] * 0x1_0000 + p[40] * 0x100 + p[41] == ip.bits
        }),
{
    lemma_octets_compose(ip);
    let p = probe_bytes(ip, mac);
    assert(p[38] == octets_of(ip)[0] && p[39] == octets_of(ip)[1] && p[40] == octets_of(ip)[2]
        && p[41] == octets_of(ip)[3]);
    if mac.len() >= 6 {
        assert forall|i: int| 0 <= i < 6 implies p[6 + i] == #[trigger] mac[i] && p[22 + i]
            == mac[i] by {
            assert(frame_mac(mac)[i] == mac[i]);
        }
    }
}

} // verus!
