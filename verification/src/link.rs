//! The interface and the clock: hardware addresses, carrier, device names, transaction ids, sleep.

use crate::number::{
    error_words, lemma_number_bound, number_error_text, number_value, parse_number, NumberError,
};
use crate::text::{characters, pieces, same_text, split, text_of, texts, trim, trimmed};
use std::sync::atomic::{AtomicBool, Ordering};
use vstd::prelude::*;
use vstd::slice::slice_to_vec;
use vstd::string::*;

verus! {

/// How many seconds to wait for a carrier.
pub const CARRIER_WAIT_SECS: u64 = 15;

/// How many milliseconds to wait between two looks at the carrier.
pub const CARRIER_POLL_MILLIS: u64 = 200;

/// The longest time in nanoseconds that the client sleeps without a look at the stop flag.
pub const SLICE_NANOS: u64 = 1_000_000_000;

/// Why a text is no hardware address.
#[derive(Clone, Debug)]
pub enum MacError {
    /// A part of the trimmed text is no byte.
    Bad(String, NumberError),
    /// There are fewer than six bytes.
    TooShort,
}

/// The bytes that `parts` are in hexadecimal, or what is wrong with the first that is none.
pub open spec fn bytes_value(parts: Seq<Seq<char>>) -> Result<Seq<u8>, NumberError>
    decreases parts.len(),
{
    if parts.len() == 0 {
        Ok(Seq::empty())
    } else {
        match bytes_value(parts.drop_last()) {
            Err(e) => Err(e),
            Ok(before) => match number_value(parts.last(), 16, 255) {
                Ok(n) => Ok(before.push(n as u8)),
                Err(e) => Err(e),
            },
        }
    }
}

/// The parts of a hardware address.
pub open spec fn mac_parts(text: Seq<char>) -> Seq<Seq<char>> {
    pieces(trimmed(text), ':')
}

proof fn lemma_bytes_fail(parts: Seq<Seq<char>>, n: int)
    requires
        0 <= n <= parts.len(),
        bytes_value(parts.take(n)) is Err,
    ensures
        bytes_value(parts) == bytes_value(parts.take(n)),
    decreases parts.len() - n,
{
    if n < parts.len() {
        assert(parts.take(n + 1).drop_last() =~= parts.take(n));
        lemma_bytes_fail(parts, n + 1);
    } else {
        assert(parts.take(n) =~= parts);
    }
}

proof fn lemma_bytes_length(parts: Seq<Seq<char>>)
    ensures
        bytes_value(parts) matches Ok(b) ==> b.len() == parts.len(),
    decreases parts.len(),
{
    if parts.len() > 0 {
        lemma_bytes_length(parts.drop_last());
    }
}

/// The hardware address that `text` is: at least six bytes in hexadecimal with colons between.
pub fn parse_mac(text: &str) -> (r: Result<Vec<u8>, MacError>)
    ensures
        match r {
            Ok(mac) => bytes_value(mac_parts(text@)) == Ok::<_, NumberError>(mac@) && mac@.len()
                >= 6,
            Err(MacError::Bad(shown, e)) => bytes_value(mac_parts(text@)) == Err::<Seq<u8>, _>(e)
                && shown@ == trimmed(text@),
            Err(MacError::TooShort) => bytes_value(mac_parts(text@)) is Ok && mac_parts(
                text@,
            ).len() < 6,
        },
{
    let all: Vec<char> = characters(text);
    let shown: &[char] = trim(&all);
    let parts: Vec<Vec<char>> = split(shown, ':');
    let ghost view = texts(parts@);
    let mut out: Vec<u8> = Vec::new();
    let mut i: usize = 0;
    proof {
        assert(out@ =~= Seq::<u8>::empty());
        assert(view.take(0) =~= Seq::<Seq<char>>::empty());
        lemma_bytes_length(view);
    }
    while i < parts.len()
        invariant
            i <= parts.len(),
            view == texts(parts@),
            view == mac_parts(text@),
            shown@ == trimmed(text@),
            bytes_value(view.take(i as int)) == Ok::<_, NumberError>(out@),
        decreases parts.len() - i,
    {
        proof {
            assert(view.take(i + 1).drop_last() =~= view.take(i as int));
            assert(view.take(i + 1).last() == parts@[i as int]@);
        }
        match parse_number(&parts[i], 16, 255) {
            Ok(n) => {
                out.push(n as u8);
            },
            Err(e) => {
                proof {
                    lemma_bytes_fail(view, i + 1);
                }
                return Err(MacError::Bad(text_of(shown), e));
            },
        }
        i += 1;
    }
    proof {
        assert(view.take(view.len() as int) =~= view);
    }
    if out.len() < 6 {
        return Err(MacError::TooShort);
    }
    Ok(out)
}

/// The words for an error of [`parse_mac`].
pub fn mac_error_text(e: &MacError) -> (r: String)
    ensures
        match e {
            MacError::Bad(shown, why) => r@ == "bad MAC "@ + shown@ + ": "@ + error_words(*why),
            MacError::TooShort => r@ == "MAC too short"@,
        },
{
    match e {
        MacError::Bad(shown, why) => {
            let mut out: String = "bad MAC ".to_owned();
            out.append(shown.as_str());
            out.append(": ");
            out.append(number_error_text(*why));
            proof {
                assert(out@ =~= "bad MAC "@ + shown@ + ": "@ + error_words(*why));
            }
            out
        },
        MacError::TooShort => "MAC too short".to_owned(),
    }
}

/// What to do after a look at the carrier.
#[derive(Clone, Copy, Debug, PartialEq, Eq, Structural)]
pub enum CarrierStep {
    /// Go on: there is a carrier.
    Up,
    /// Go on without a carrier.
    Late,
    /// Look again.
    Poll,
}

/// What to do after a look at the carrier, given what its file says, where it could be read, and
/// whether the time to wait is over.
pub fn carrier_step(text: Option<String>, late: bool) -> (r: CarrierStep)
    ensures
        r == if text matches Some(s) && trimmed(s@) == "1"@ {
            CarrierStep::Up
        } else if late {
            CarrierStep::Late
        } else {
            CarrierStep::Poll
        },
{
    if let Some(s) = text {
        let all: Vec<char> = characters(s.as_str());
        if same_text(trim(&all), "1") {
            return CarrierStep::Up;
        }
    }
    if late {
        CarrierStep::Late
    } else {
        CarrierStep::Poll
    }
}

/// The name of a device in a field of `size` bytes, with zeros behind, or `None` where it and one
/// zero do not fit.
pub fn device_name(name: &[u8], size: usize) -> (r: Option<Vec<u8>>)
    ensures
        match r {
            Some(field) => name@.len() < size && field@ == name@ + Seq::new(
                (size - name@.len()) as nat,
                |i: int| 0u8,
            ),
            None => name@.len() >= size,
        },
{
    if name.len() >= size {
        return None;
    }
    let mut field: Vec<u8> = slice_to_vec(name);
    while field.len() < size
        invariant
            name@.len() <= field@.len() <= size,
            field@ == name@ + Seq::new((field@.len() - name@.len()) as nat, |i: int| 0u8),
        decreases size - field.len(),
    {
        field.push(0);
        proof {
            assert(field@ =~= name@ + Seq::new(
                (field@.len() - name@.len()) as nat,
                |i: int| 0u8,
            ));
        }
    }
    Some(field)
}

/// The words for a name of a device that does not fit.
pub fn device_name_error_text() -> (r: &'static str)
    ensures
        r@ == "iface name to long"@,
{
    "iface name to long"
}

/// A transaction id from the time since 1970 in nanoseconds, where the clock is not before that,
/// and the number of the process.
pub fn mix_xid(nanos: Option<u128>, process: u32) -> (r: u32)
    ensures
        r == (match nanos {
            Some(n) => (n % 0x1_0000_0000) as u32,
            None => 1,
        }) ^ process,
{
    let t: u32 = match nanos {
        Some(n) => (n % 0x1_0000_0000) as u32,
        None => 1,
    };
    t ^ process
}

/// Whether the client must stop: what a sequentially consistent load of the flag gives. A signal
/// can set the flag at any time, so which of the two values that is, is not known beforehand.
pub fn stop_requested(stop: &AtomicBool) -> (r: bool)
    ensures
        call_ensures(AtomicBool::load, (stop, Ordering::SeqCst), r),
{
    stop.load(Ordering::SeqCst)
}

/// Sets the flag by which the client must stop, as a signal does: a sequentially consistent store of
/// `true`. Nothing here ever stores `false`.
pub fn request_stop(stop: &AtomicBool)
    ensures
        call_ensures(AtomicBool::store, (stop, true, Ordering::SeqCst), ()),
{
    stop.store(true, Ordering::SeqCst)
}

/// What to do in the course of a sleep.
#[derive(Clone, Copy, Debug, PartialEq, Eq, Structural)]
pub enum SleepStep {
    /// Sleep for so many nanoseconds.
    Sleep(u64),
    /// The sleep is over.
    Over,
    /// The client must stop.
    Stopped,
}

/// The part of a sleep of `left` nanoseconds that comes before the next look at the stop flag.
pub open spec fn slice_of(left: nat) -> nat {
    if left < SLICE_NANOS {
        left
    } else {
        SLICE_NANOS as nat
    }
}

/// What to do with `left` nanoseconds to sleep, once the stop flag was looked at.
pub fn sleep_step(left: u128, stop: bool) -> (r: SleepStep)
    ensures
        r == if stop {
            SleepStep::Stopped
        } else if left == 0 {
            SleepStep::Over
        } else {
            SleepStep::Sleep(slice_of(left as nat) as u64)
        },
        r matches SleepStep::Sleep(n) ==> 0 < n <= left && n <= SLICE_NANOS,
{
    if stop {
        SleepStep::Stopped
    } else if left == 0 {
        SleepStep::Over
    } else if left < SLICE_NANOS as u128 {
        SleepStep::Sleep(left as u64)
    } else {
        SleepStep::Sleep(SLICE_NANOS)
    }
}

/// The parts of an undisturbed sleep of `left` nanoseconds.
pub open spec fn slices(left: nat) -> Seq<nat>
    decreases left,
{
    if left == 0 {
        Seq::empty()
    } else {
        seq![slice_of(left)] + slices((left - slice_of(left)) as nat)
    }
}

/// The sum of `parts`.
pub open spec fn total(parts: Seq<nat>) -> nat
    decreases parts.len(),
{
    if parts.len() == 0 {
        0
    } else {
        parts[0] + total(parts.skip(1))
    }
}

/// An undisturbed sleep takes as long as it was asked to, and is never longer than a second
/// without a look at the stop flag.
pub proof fn law_sleep_is_whole(left: nat)
    ensures
        total(slices(left)) == left,
        forall|i: int|
            0 <= i < slices(left).len() ==> 0 < #[trigger] slices(left)[i] <= SLICE_NANOS,
    decreases left,
{
    if left > 0 {
        let rest = (left - slice_of(left)) as nat;
        law_sleep_is_whole(rest);
        assert(slices(left).skip(1) =~= slices(rest));
        assert forall|i: int| 0 <= i < slices(left).len() implies 0 < #[trigger] slices(left)[i]
            <= SLICE_NANOS by {
            if i > 0 {
                assert(slices(left)[i] == slices(rest)[i - 1]);
            }
        }
    }
}

/// Which program configures the network: the first of three that is there, else whatever the
/// search path finds.
pub fn ip_bin(usr_bin: bool, sbin: bool, usr_sbin: bool) -> (r: &'static str)
    ensures
        r@ == if usr_bin {
            "/usr/bin/ip"@
        } else if sbin {
            "/sbin/ip"@
        } else if usr_sbin {
            "/usr/sbin/ip"@
        } else {
            "ip"@
        },
{
    if usr_bin {
        "/usr/bin/ip"
    } else if sbin {
        "/sbin/ip"
    } else if usr_sbin {
        "/usr/sbin/ip"
    } else {
        "ip"
    }
}

/// The bytes of a hardware address are the hexadecimal values of its parts, one by one; where a part
/// has none, the first such part says what is wrong.
pub proof fn law_bytes_are_the_parts(parts: Seq<Seq<char>>)
    ensures
        match bytes_value(parts) {
            Ok(b) => b.len() == parts.len() && forall|i: int|
                0 <= i < parts.len() ==> number_value(#[trigger] parts[i], 16, 255) == Ok::<
                    nat,
                    NumberError,
                >(b[i] as nat),
            Err(e) => exists|i: int|
                0 <= i < parts.len() && number_value(#[trigger] parts[i], 16, 255) == Err::<
                    nat,
                    NumberError,
                >(e) && forall|j: int|
                    0 <= j < i ==> number_value(#[trigger] parts[j], 16, 255) is Ok,
        },
    decreases parts.len(),
{
    if parts.len() > 0 {
        let before = parts.drop_last();
        let n = before.len() as int;
        law_bytes_are_the_parts(before);
        assert(parts[n] == parts.last());
        match bytes_value(before) {
            Ok(b) => {
                assert forall|i: int| 0 <= i < n implies number_value(
                    #[trigger] parts[i],
                    16,
                    255,
                ) == Ok::<nat, NumberError>(b[i] as nat) by {
                    assert(before[i] == parts[i]);
                }
                lemma_number_bound(parts.last(), 16, 255);
            },
            Err(e) => {
                let i = choose|i: int|
                    0 <= i < before.len() && number_value(#[trigger] before[i], 16, 255) == Err::<
                        nat,
                        NumberError,
                    >(e) && forall|j: int|
                        0 <= j < i ==> number_value(#[trigger] before[j], 16, 255) is Ok;
                assert(before[i] == parts[i]);
                assert forall|j: int| 0 <= j < i implies number_value(
                    #[trigger] parts[j],
                    16,
                    255,
                ) is Ok by {
                    assert(before[j] == parts[j]);
                }
            },
        }
    }
}

/// The parts of a hardware address stand between colons, once the white space around it is gone.
pub proof fn law_mac_parts(text: Seq<char>)
    ensures
        mac_parts(text) == pieces(trimmed(text), ':'),
{
}

/// A slice of a sleep is a second, or what is left where that is less.
pub proof fn law_slices(left: nat)
    ensures
        left < 1_000_000_000 ==> slice_of(left) == left,
        left >= 1_000_000_000 ==> slice_of(left) == 1_000_000_000,
{
}

} // verus!
