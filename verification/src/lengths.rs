//! Option lengths that a decoder may be given.
//!
//! `dhcproto` asserts, in builds with debug assertions, the length of a few kinds of option that
//! the client has no use for. A datagram that breaks such an assertion is settled first: an
//! option that is too long, which the decoder would read and nobody would look at, becomes
//! padding, and one that is too short, at which the decoder would stop, becomes the end mark.

use vstd::prelude::*;
use vstd::slice::slice_to_vec;

verus! {

/// The length of the options with `code` at the head of `s`, one behind the other, and of what
/// they hold; `None` where the last of them is cut short.
pub open spec fn run(s: Seq<u8>, code: u8) -> Option<(nat, nat)>
    decreases s.len(),
{
    if s.len() == 0 || s[0] != code {
        Some((0, 0))
    } else if s.len() < 2 || s.len() < 2 + s[1] {
        None
    } else {
        match run(s.skip(2 + s[1]), code) {
            Some((length, held)) => Some((length + 2 + s[1] as nat, held + s[1] as nat)),
            None => None,
        }
    }
}

/// How the length of an option agrees with its kind.
#[derive(Clone, Copy, Debug, PartialEq, Eq, Structural)]
pub enum Fit {
    Fits,
    TooLong,
    TooShort,
}

/// The length that an option with `code` must have at least, and whether it may have more.
pub open spec fn wanted(code: u8) -> (nat, bool) {
    if code == 80 {
        (0, false)
    } else if code == 81 {
        (3, true)
    } else if code == 94 {
        (3, false)
    } else if 152 <= code <= 155 {
        (4, false)
    } else {
        (0, true)
    }
}

/// How `held` bytes agree with the kind of option that has `code`.
pub open spec fn fit(code: u8, held: nat) -> Fit {
    let (least, more) = wanted(code);
    if held < least {
        Fit::TooShort
    } else if held > least && !more {
        Fit::TooLong
    } else {
        Fit::Fits
    }
}

proof fn lemma_run_length(s: Seq<u8>, code: u8)
    ensures
        run(s, code) matches Some((length, held)) ==> length <= s.len(),
        run(s, code) matches Some((length, held)) ==> s.len() > 0 && s[0] == code ==> length >= 2,
        run(s, code) matches Some((length, held)) ==> length < s.len() ==> s[length as int]
            != code,
    decreases s.len(),
{
    if s.len() > 0 && s[0] == code && s.len() >= 2 && s.len() >= 2 + s[1] {
        lemma_run_length(s.skip(2 + s[1]), code);
    }
}

/// Whether the decoder's assertions hold on the options in `s`.
pub open spec fn lengths_hold(s: Seq<u8>) -> bool
    decreases s.len(),
    via lengths_hold_ends
{
    if s.len() == 0 || s[0] == 255 {
        true
    } else if s[0] == 0 {
        lengths_hold(s.skip(1))
    } else {
        match run(s, s[0]) {
            Some((length, held)) => fit(s[0], held) == Fit::Fits && lengths_hold(
                s.skip(length as int),
            ),
            None => true,
        }
    }
}

#[via_fn]
proof fn lengths_hold_ends(s: Seq<u8>) {
    if s.len() > 0 {
        lemma_run_length(s, s[0]);
    }
}

/// `s` with the options that break an assertion replaced by padding or by the end mark.
pub open spec fn settled(s: Seq<u8>) -> Seq<u8>
    decreases s.len(),
    via settled_ends
{
    if s.len() == 0 || s[0] == 255 {
        s
    } else if s[0] == 0 {
        seq![0u8] + settled(s.skip(1))
    } else {
        match run(s, s[0]) {
            Some((length, held)) => match fit(s[0], held) {
                Fit::Fits => s.take(length as int) + settled(s.skip(length as int)),
                Fit::TooLong => Seq::new(length, |i: int| 0u8) + settled(s.skip(length as int)),
                Fit::TooShort => s.update(0, 255),
            },
            None => s,
        }
    }
}

#[via_fn]
proof fn settled_ends(s: Seq<u8>) {
    if s.len() > 0 {
        lemma_run_length(s, s[0]);
    }
}

/// A run is found again where something else follows it.
proof fn lemma_run_kept(s: Seq<u8>, code: u8, length: nat, rest: Seq<u8>)
    requires
        run(s, code) matches Some((l, _)) && l == length,
        rest.len() > 0 ==> rest[0] != code,
    ensures
        run(s.take(length as int) + rest, code) == run(s, code),
    decreases s.len(),
{
    let t = s.take(length as int) + rest;
    lemma_run_length(s, code);
    if s.len() > 0 && s[0] == code {
        let step = 2 + s[1];
        lemma_run_length(s.skip(step), code);
        lemma_run_kept(s.skip(step), code, (length - step) as nat, rest);
        assert(t.skip(step) =~= s.skip(step).take(length - step) + rest);
        assert(t[0] == s[0] && t[1] == s[1]);
    } else {
        assert(t =~= rest);
    }
}

proof fn lemma_pads(n: nat, rest: Seq<u8>)
    requires
        lengths_hold(rest),
    ensures
        lengths_hold(Seq::new(n, |i: int| 0u8) + rest),
    decreases n,
{
    let s = Seq::new(n, |i: int| 0u8) + rest;
    if n == 0 {
        assert(s =~= rest);
    } else {
        lemma_pads((n - 1) as nat, rest);
        assert(s.skip(1) =~= Seq::new((n - 1) as nat, |i: int| 0u8) + rest);
    }
}

proof fn lemma_settled(s: Seq<u8>)
    ensures
        lengths_hold(settled(s)),
        settled(s).len() == s.len(),
        lengths_hold(s) ==> settled(s) == s,
        s.len() > 0 ==> settled(s)[0] == s[0] || settled(s)[0] == 0 || settled(s)[0] == 255,
    decreases s.len(),
{
    if s.len() == 0 || s[0] == 255 {
    } else if s[0] == 0 {
        lemma_settled(s.skip(1));
        assert(settled(s).skip(1) =~= settled(s.skip(1)));
        assert(seq![0u8] + s.skip(1) =~= s);
    } else {
        lemma_run_length(s, s[0]);
        match run(s, s[0]) {
            Some((length, held)) => {
                let rest = s.skip(length as int);
                lemma_settled(rest);
                assert(s.take(length as int) + rest =~= s);
                match fit(s[0], held) {
                    Fit::Fits => {
                        let t = settled(s);
                        lemma_run_kept(s, s[0], length, settled(rest));
                        assert(t.skip(length as int) =~= settled(rest));
                    },
                    Fit::TooLong => {
                        lemma_pads(length, settled(rest));
                    },
                    Fit::TooShort => {},
                }
            },
            None => {},
        }
    }
}

/// A settled list of options breaks no assertion and is as long as before. One that breaks none is
/// left as it is.
pub proof fn law_settled(s: Seq<u8>)
    ensures
        lengths_hold(settled(s)),
        settled(s).len() == s.len(),
        lengths_hold(s) ==> settled(s) == s,
{
    lemma_settled(s);
}

fn find_run(s: &[u8], from: usize) -> (r: Option<(usize, usize)>)
    requires
        from < s.len(),
    ensures
        match r {
            Some((end, held)) => from <= end && run(s@.skip(from as int), s@[from as int]) == Some(
                ((end - from) as nat, held as nat),
            ),
            None => run(s@.skip(from as int), s@[from as int]) is None,
        },
{
    let code: u8 = s[from];
    let mut end: usize = from;
    let mut held: usize = 0;
    let ghost all = run(s@.skip(from as int), code);
    while end < s.len() && s[end] == code
        invariant
            from <= end <= s.len(),
            from < s.len(),
            code == s@[from as int],
            all == run(s@.skip(from as int), code),
            held <= end - from,
            match run(s@.skip(end as int), code) {
                Some((l, h)) => all == Some(((end - from) as nat + l, held as nat + h)),
                None => all is None,
            },
        decreases s.len() - end,
    {
        if s.len() - end < 2 {
            return None;
        }
        let size: usize = s[end + 1] as usize;
        if s.len() - end - 2 < size {
            return None;
        }
        proof {
            assert(s@.skip(end as int).skip(2 + size as int) =~= s@.skip(end + 2 + size));
        }
        end += 2 + size;
        held += size;
    }
    Some((end, held))
}

fn judge(code: u8, held: usize) -> (r: Fit)
    ensures
        r == fit(code, held as nat),
{
    let (least, more): (usize, bool) = if code == 80 {
        (0, false)
    } else if code == 81 {
        (3, true)
    } else if code == 94 {
        (3, false)
    } else if 152 <= code && code <= 155 {
        (4, false)
    } else {
        (0, true)
    };
    if held < least {
        Fit::TooShort
    } else if held > least && !more {
        Fit::TooLong
    } else {
        Fit::Fits
    }
}

/// `bytes`, of which those from `start` on are settled.
pub fn settle(bytes: &[u8], start: usize) -> (r: Vec<u8>)
    requires
        start <= bytes.len(),
    ensures
        r@ == bytes@.take(start as int) + settled(bytes@.skip(start as int)),
{
    let mut out: Vec<u8> = slice_to_vec(bytes);
    let mut i: usize = start;
    let ghost want = bytes@.take(start as int) + settled(bytes@.skip(start as int));
    while i < bytes.len()
        invariant
            start <= i <= bytes.len(),
            out@.len() == bytes@.len(),
            want == bytes@.take(start as int) + settled(bytes@.skip(start as int)),
            out@.skip(i as int) == bytes@.skip(i as int),
            out@.take(i as int) + settled(bytes@.skip(i as int)) == want,
        decreases bytes.len() - i,
    {
        let ghost tail = bytes@.skip(i as int);
        let code: u8 = bytes[i];
        if code == 255 {
            proof {
                assert(out@ =~= out@.take(i as int) + out@.skip(i as int));
            }
            return out;
        }
        if code == 0 {
            proof {
                assert(tail.skip(1) =~= bytes@.skip(i + 1));
                assert(out@[i as int] == out@.skip(i as int)[0]);
                assert(out@.take(i + 1) + settled(bytes@.skip(i + 1)) =~= out@.take(i as int) + (
                seq![0u8] + settled(bytes@.skip(i + 1))));
                assert(out@.skip(i + 1) =~= out@.skip(i as int).skip(1));
            }
            i += 1;
            continue ;
        }
        match find_run(bytes, i) {
            None => {
                proof {
                    assert(out@ =~= out@.take(i as int) + out@.skip(i as int));
                }
                return out;
            },
            Some((end, held)) => {
                let ghost length = (end - i) as nat;
                proof {
                    lemma_run_length(tail, code);
                    assert(tail.skip(length as int) =~= bytes@.skip(end as int));
                }
                match judge(code, held) {
                    Fit::Fits => {
                        proof {
                            assert(out@.take(end as int) =~= out@.take(i as int) + out@.skip(
                                i as int,
                            ).take(length as int));
                            assert(out@.take(end as int) + settled(bytes@.skip(end as int))
                                =~= out@.take(i as int) + (tail.take(length as int) + settled(
                                bytes@.skip(end as int),
                            )));
                            assert(out@.skip(end as int) =~= out@.skip(i as int).skip(
                                length as int,
                            ));
                        }
                    },
                    Fit::TooLong => {
                        let ghost before = out@;
                        let mut k: usize = i;
                        while k < end
                            invariant
                                i <= k <= end <= bytes.len(),
                                out@.len() == bytes@.len(),
                                before.len() == bytes@.len(),
                                forall|j: int| 0 <= j < i ==> out@[j] == before[j],
                                forall|j: int| i <= j < k ==> out@[j] == 0,
                                forall|j: int| k <= j < out@.len() ==> out@[j] == before[j],
                            decreases end - k,
                        {
                            out.set(k, 0);
                            k += 1;
                        }
                        proof {
                            let rest = settled(bytes@.skip(end as int));
                            assert(out@.take(end as int) + rest =~= before.take(i as int) + (
                            Seq::new(length, |j: int| 0u8) + rest));
                            assert(out@.skip(end as int) =~= before.skip(i as int).skip(
                                length as int,
                            ));
                        }
                    },
                    Fit::TooShort => {
                        let ghost before = out@;
                        out.set(i, 255);
                        proof {
                            assert(out@ =~= before.take(i as int) + before.skip(i as int).update(
                                0,
                                255,
                            ));
                        }
                        return out;
                    },
                }
                i = end;
            },
        }
    }
    proof {
        assert(settled(bytes@.skip(i as int)) =~= Seq::<u8>::empty());
        assert(out@.take(i as int) =~= out@);
        assert(out@ + Seq::<u8>::empty() =~= out@);
    }
    out
}

/// One option after the other, all with `code`, each holding one of `parts`.
pub open spec fn in_parts(code: u8, parts: Seq<Seq<u8>>) -> Seq<u8>
    decreases parts.len(),
{
    if parts.len() == 0 {
        Seq::empty()
    } else {
        seq![code, parts[0].len() as u8] + parts[0] + in_parts(code, parts.skip(1))
    }
}

/// How many bytes `parts` have together.
pub open spec fn size_of_parts(parts: Seq<Seq<u8>>) -> nat
    decreases parts.len(),
{
    if parts.len() == 0 {
        0
    } else {
        parts[0].len() + size_of_parts(parts.skip(1))
    }
}

proof fn lemma_parts_run(code: u8, parts: Seq<Seq<u8>>, rest: Seq<u8>)
    requires
        forall|i: int| 0 <= i < parts.len() ==> (#[trigger] parts[i]).len() <= 255,
    ensures
        rest.len() == 0 || rest[0] != code ==> run(in_parts(code, parts) + rest, code) == Some(
            (in_parts(code, parts).len(), size_of_parts(parts)),
        ),
        run(rest, code) is None ==> run(in_parts(code, parts) + rest, code) is None,
    decreases parts.len(),
{
    let s = in_parts(code, parts) + rest;
    if parts.len() == 0 {
        assert(s =~= rest);
    } else {
        let more = parts.skip(1);
        assert forall|i: int| 0 <= i < more.len() implies (#[trigger] more[i]).len() <= 255 by {
            assert(more[i] == parts[i + 1]);
        }
        lemma_parts_run(code, more, rest);
        assert(s[0] == code && s[1] == parts[0].len());
        assert(s.skip(2 + s[1]) =~= in_parts(code, more) + rest);
    }
}

/// An option, in one part or in several, is left alone unless it is one of seven kinds and does not
/// have the length of its kind: 80 must hold nothing, 94 three bytes, 152 to 155 four, 81 at least
/// three. One that holds too much becomes padding, one that holds too little the end mark; what
/// follows is settled in its turn, or not reached.
pub proof fn law_option_is_settled(code: u8, parts: Seq<Seq<u8>>, rest: Seq<u8>)
    requires
        code != 0 && code != 255,
        parts.len() > 0,
        forall|i: int| 0 <= i < parts.len() ==> (#[trigger] parts[i]).len() <= 255,
        rest.len() == 0 || rest[0] != code,
    ensures
        ({
            let option = in_parts(code, parts);
            let n = size_of_parts(parts);
            let short = ((code == 81 || code == 94) && n < 3) || (152 <= code <= 155 && n < 4);
            let long = (code == 80 && n > 0) || (code == 94 && n > 3) || (152 <= code <= 155 && n
                > 4);
            let s = settled(option + rest);
            &&& !short && !long ==> s == option + settled(rest)
            &&& long ==> s == Seq::new(option.len(), |i: int| 0u8) + settled(rest)
            &&& short ==> s == seq![255u8] + (option + rest).skip(1)
            &&& lengths_hold(option + rest) <==> !short && !long && lengths_hold(rest)
        }),
{
    let option = in_parts(code, parts);
    let s = option + rest;
    lemma_parts_run(code, parts, rest);
    assert(s[0] == code);
    assert(s.take(option.len() as int) =~= option);
    assert(s.skip(option.len() as int) =~= rest);
    assert(s.update(0, 255) =~= seq![255u8] + s.skip(1));
}

/// Padding stays and what follows it is settled; from the end mark on, nothing changes, nor does an
/// option that is cut short.
pub proof fn law_marks_are_kept(rest: Seq<u8>, code: u8, parts: Seq<Seq<u8>>, size: u8)
    requires
        code != 0 && code != 255,
        forall|i: int| 0 <= i < parts.len() ==> (#[trigger] parts[i]).len() <= 255,
    ensures
        settled(Seq::empty()) == Seq::<u8>::empty(),
        settled(seq![0u8] + rest) == seq![0u8] + settled(rest),
        settled(seq![255u8] + rest) == seq![255u8] + rest,
        settled(in_parts(code, parts) + seq![code]) == in_parts(code, parts) + seq![code],
        rest.len() < size ==> settled(in_parts(code, parts) + (seq![code, size] + rest)) == in_parts(
            code,
            parts,
        ) + (seq![code, size] + rest),
{
    assert((seq![0u8] + rest).skip(1) =~= rest);
    let lone = seq![code];
    lemma_parts_run(code, parts, lone);
    assert((in_parts(code, parts) + lone)[0] == code);
    if rest.len() < size {
        let cut = seq![code, size] + rest;
        lemma_parts_run(code, parts, cut);
        assert((in_parts(code, parts) + cut)[0] == code);
    }
}

} // verus!
