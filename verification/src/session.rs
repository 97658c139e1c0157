//! The course of a run, from the start to the lease that is kept.

use crate::args::{Args, ArgsView};
use vstd::prelude::*;

verus! {

/// How far a run has come.
#[derive(Clone, Copy, Debug, PartialEq, Eq, Structural)]
pub enum Stage {
    /// Nothing was done yet.
    Start,
    /// The interface was looked for.
    Finding,
    /// The loopback interface was to be brought up.
    Loopback,
    /// The interface was to be brought up.
    Raising,
    /// The carrier was waited for.
    Waiting,
    /// The saved lease was asked for again.
    Rebooting,
    /// A lease was looked for.
    Discovering,
    /// The lease was to be put into effect.
    Applying,
    /// The lease was to be saved.
    Saving,
    /// The run is over, or goes on with keeping the lease.
    End,
}

/// What to do next.
#[derive(Clone, Copy, Debug, PartialEq, Eq, Structural)]
pub enum Task {
    /// See whether the interface is there.
    Find,
    /// Bring the loopback interface up.
    RaiseLoopback,
    /// Bring the interface up.
    RaiseIface,
    /// Wait for the carrier.
    WaitCarrier,
    /// Ask for the saved lease again.
    Reboot,
    /// Look for a lease.
    Discover,
    /// Let the hook script put the lease into effect.
    RunScript,
    /// Put the lease into effect.
    Apply,
    /// Save the lease.
    Save,
    /// Keep the lease until the client must stop.
    Keep,
    /// Exit with the status.
    Exit(u8),
    /// Nothing: the end was reached before.
    Rest,
}

/// How a lease is put into effect: by the hook script where one is named.
pub open spec fn apply_task(args: ArgsView) -> Task {
    if args.script is Some {
        Task::RunScript
    } else {
        Task::Apply
    }
}

/// What comes once the lease is in effect, and saved where it is to be.
pub open spec fn last_task(args: ArgsView) -> Task {
    if args.oneshot {
        Task::Exit(0)
    } else {
        Task::Keep
    }
}

/// What follows on `stage` once what it stands for was done, well or not (`ok`). Only a saved
/// lease that cannot be taken up again, and a missing carrier, do not end the run.
pub open spec fn session_next(stage: Stage, ok: bool, args: ArgsView) -> (Stage, Task) {
    match stage {
        Stage::Start => (Stage::Finding, Task::Find),
        Stage::Finding => if ok {
            (Stage::Loopback, Task::RaiseLoopback)
        } else {
            (Stage::End, Task::Exit(1))
        },
        Stage::Loopback => if ok {
            (Stage::Raising, Task::RaiseIface)
        } else {
            (Stage::End, Task::Exit(1))
        },
        Stage::Raising => if ok {
            (Stage::Waiting, Task::WaitCarrier)
        } else {
            (Stage::End, Task::Exit(1))
        },
        Stage::Waiting => if args.lease_path is Some {
            (Stage::Rebooting, Task::Reboot)
        } else {
            (Stage::Discovering, Task::Discover)
        },
        Stage::Rebooting => if ok {
            (Stage::Applying, apply_task(args))
        } else {
            (Stage::Discovering, Task::Discover)
        },
        Stage::Discovering => if ok {
            (Stage::Applying, apply_task(args))
        } else {
            (Stage::End, Task::Exit(1))
        },
        Stage::Applying => if !ok {
            (Stage::End, Task::Exit(1))
        } else if args.lease_path is Some {
            (Stage::Saving, Task::Save)
        } else {
            (Stage::End, last_task(args))
        },
        Stage::Saving => if ok {
            (Stage::End, last_task(args))
        } else {
            (Stage::End, Task::Exit(1))
        },
        Stage::End => (Stage::End, Task::Rest),
    }
}

/// How the command line asks a lease to be put into effect: the first one, and each that replaces
/// it.
pub fn install_task(args: &Args) -> (r: Task)
    ensures
        r == apply_task(args@),
{
    if args.script.is_some() {
        Task::RunScript
    } else {
        Task::Apply
    }
}

/// What follows on `stage` once what it stands for was done, well or not (`ok`).
pub fn session_step(stage: Stage, ok: bool, args: &Args) -> (r: (Stage, Task))
    ensures
        r == session_next(stage, ok, args@),
{
    let apply: Task = install_task(args);
    let last: Task = if args.oneshot {
        Task::Exit(0)
    } else {
        Task::Keep
    };
    match stage {
        Stage::Start => (Stage::Finding, Task::Find),
        Stage::Waiting => if args.lease_path.is_some() {
            (Stage::Rebooting, Task::Reboot)
        } else {
            (Stage::Discovering, Task::Discover)
        },
        Stage::Rebooting => if ok {
            (Stage::Applying, apply)
        } else {
            (Stage::Discovering, Task::Discover)
        },
        Stage::End => (Stage::End, Task::Rest),
        _ => if !ok {
            (Stage::End, Task::Exit(1))
        } else {
            match stage {
                Stage::Finding => (Stage::Loopback, Task::RaiseLoopback),
                Stage::Loopback => (Stage::Raising, Task::RaiseIface),
                Stage::Raising => (Stage::Waiting, Task::WaitCarrier),
                Stage::Discovering => (Stage::Applying, apply),
                Stage::Applying => if args.lease_path.is_some() {
                    (Stage::Saving, Task::Save)
                } else {
                    (Stage::End, last)
                },
                _ => (Stage::End, last),
            }
        },
    }
}

/// A run that was asked for one lease ends well right after the lease is in effect (and saved,
/// where a file for it is named); any other run then keeps the lease.
pub proof fn law_oneshot_ends(args: ArgsView)
    ensures
        args.lease_path is None ==> session_next(Stage::Applying, true, args) == (
            Stage::End,
            if args.oneshot {
                Task::Exit(0)
            } else {
                Task::Keep
            },
        ),
        args.lease_path is Some ==> session_next(Stage::Applying, true, args) == (
            Stage::Saving,
            Task::Save,
        ),
        args.lease_path is Some ==> session_next(Stage::Saving, true, args) == (
            Stage::End,
            if args.oneshot {
                Task::Exit(0)
            } else {
                Task::Keep
            },
        ),
{
}

/// A saved lease is asked for only where a file for it is named, and a failure to take it up
/// leads to a new discovery.
pub proof fn law_reboot_needs_a_file(stage: Stage, ok: bool, args: ArgsView)
    ensures
        session_next(stage, ok, args).1 == Task::Reboot ==> args.lease_path is Some,
        session_next(Stage::Rebooting, false, args).1 == Task::Discover,
{
}

/// A lease is saved or kept only after it was put into effect.
pub proof fn law_applied_before_kept(stage: Stage, ok: bool, args: ArgsView)
    ensures
        session_next(stage, ok, args).1 == Task::Save ==> stage is Applying && ok,
        session_next(stage, ok, args).1 == Task::Keep ==> ok && (stage is Applying
            || stage is Saving),
{
}

/// The course of a run, step by step: the interface is looked for, the loopback and the interface are
/// brought up, the carrier is waited for, a lease is got, put into effect, saved where a file is
/// named, and kept unless one lease is all that was asked for. A failure ends the run with status 1,
/// but for a missing carrier and a saved lease that cannot be taken up.
pub proof fn law_course_of_a_run(args: ArgsView, ok: bool)
    ensures
        ({
            let failed = (Stage::End, Task::Exit(1));
            let apply = if args.script is Some {
                Task::RunScript
            } else {
                Task::Apply
            };
            let last = if args.oneshot {
                Task::Exit(0)
            } else {
                Task::Keep
            };
            &&& session_next(Stage::Start, ok, args) == (Stage::Finding, Task::Find)
            &&& session_next(Stage::Finding, true, args) == (Stage::Loopback, Task::RaiseLoopback)
            &&& session_next(Stage::Finding, false, args) == failed
            &&& session_next(Stage::Loopback, true, args) == (Stage::Raising, Task::RaiseIface)
            &&& session_next(Stage::Loopback, false, args) == failed
            &&& session_next(Stage::Raising, true, args) == (Stage::Waiting, Task::WaitCarrier)
            &&& session_next(Stage::Raising, false, args) == failed
            &&& args.lease_path is Some ==> session_next(Stage::Waiting, ok, args) == (
                Stage::Rebooting,
                Task::Reboot,
            )
            &&& args.lease_path is None ==> session_next(Stage::Waiting, ok, args) == (
                Stage::Discovering,
                Task::Discover,
            )
            &&& session_next(Stage::Rebooting, true, args) == (Stage::Applying, apply)
            &&& session_next(Stage::Rebooting, false, args) == (Stage::Discovering, Task::Discover)
            &&& session_next(Stage::Discovering, true, args) == (Stage::Applying, apply)
            &&& session_next(Stage::Discovering, false, args) == failed
            &&& args.lease_path is Some ==> session_next(Stage::Applying, true, args) == (
                Stage::Saving,
                Task::Save,
            )
            &&& args.lease_path is None ==> session_next(Stage::Applying, true, args) == (
                Stage::End,
                last,
            )
            &&& session_next(Stage::Applying, false, args) == failed
            &&& session_next(Stage::Saving, true, args) == (Stage::End, last)
            &&& session_next(Stage::Saving, false, args) == failed
            &&& apply_task(args) == apply
        }),
{
}

/// Nothing is left to do after the end of a run.
pub proof fn law_end_is_the_end(args: ArgsView, ok: bool)
    ensures
        session_next(Stage::End, ok, args) == (Stage::End, Task::Rest),
{
}

} // verus!
