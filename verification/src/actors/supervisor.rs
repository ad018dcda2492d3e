//! When the system stops, and with what verdict.
use vstd::prelude::*;

use crate::decimal::print_unsigned;
use crate::text::join;

verus! {

/// How long the parts get to finish, in seconds.
pub const GRACEFUL_SHUTDOWN_SECS: u64 = 120;

/// What ended the normal run.
#[derive(Debug, Clone)]
pub enum Ending {
    /// Someone asked for it.
    ShutdownRequested,
    /// A part returned by itself.
    ActorExited { name: String },
    /// A part broke down.
    ActorFailed { error: String },
    /// There was no part to run.
    NoActors,
}

/// How waiting for the other parts went.
#[derive(Debug, Clone)]
pub enum Drained {
    Finished,
    ActorFailed { error: String },
    /// The time was up; what was left has been stopped.
    TimedOut,
}

/// What is done once the normal run has ended.
#[derive(Debug, Clone, Copy, PartialEq, Eq, Structural)]
pub struct Shutdown {
    /// Whether the other parts are told to stop.
    pub cancel: bool,
    /// Whether they are waited for.
    pub drain: bool,
}

/// What an ending calls for. A part that returns while a shutdown is under way is part of it.
pub open spec fn shutdown_for(ending: Ending, cancelled: bool) -> Shutdown {
    match ending {
        Ending::ShutdownRequested => Shutdown { cancel: false, drain: true },
        Ending::ActorExited { .. } => Shutdown { cancel: !cancelled, drain: true },
        Ending::ActorFailed { .. } => Shutdown { cancel: true, drain: true },
        Ending::NoActors => Shutdown { cancel: true, drain: false },
    }
}

/// What went wrong while waiting, if anything.
pub open spec fn drain_fault(drained: Drained) -> Option<Seq<char>> {
    match drained {
        Drained::Finished => None,
        Drained::ActorFailed { error } => Some("优雅关闭期间 actor task 异常: "@ + error@),
        Drained::TimedOut => Some(
            "优雅关闭超过 "@ + crate::decimal::printed(GRACEFUL_SHUTDOWN_SECS as nat)
                + " 秒，已强制终止剩余 actor；可能存在待恢复交易"@,
        ),
    }
}

/// What is reported in the end, if anything: the first cause where the run broke off, else what
/// went wrong while waiting.
pub open spec fn fault_of(ending: Ending, cancelled: bool, drained: Drained) -> Option<Seq<char>> {
    match ending {
        Ending::ShutdownRequested => drain_fault(drained),
        Ending::ActorExited { name } => if cancelled {
            drain_fault(drained)
        } else {
            Some("关键 actor 意外退出: "@ + name@)
        },
        Ending::ActorFailed { error } => Some("关键 actor task 异常: "@ + error@),
        Ending::NoActors => Some("没有可运行的关键 actor"@),
    }
}

/// Says what an ending calls for.
pub fn plan_shutdown(ending: &Ending, cancelled: bool) -> (plan: Shutdown)
    ensures
        plan == shutdown_for(*ending, cancelled),
{
    match ending {
        Ending::ShutdownRequested => Shutdown { cancel: false, drain: true },
        Ending::ActorExited { .. } => Shutdown { cancel: !cancelled, drain: true },
        Ending::ActorFailed { .. } => Shutdown { cancel: true, drain: true },
        Ending::NoActors => Shutdown { cancel: true, drain: false },
    }
}

fn judge_drain(drained: &Drained) -> (result: Result<(), String>)
    ensures
        match result {
            Ok(()) => drain_fault(*drained) is None,
            Err(text) => drain_fault(*drained) == Some(text@),
        },
{
    match drained {
        Drained::Finished => Ok(()),
        Drained::ActorFailed { error } => Err(
            join("优雅关闭期间 actor task 异常: ", error.as_str()),
        ),
        Drained::TimedOut => Err(
            join(
                join("优雅关闭超过 ", print_unsigned(GRACEFUL_SHUTDOWN_SECS).as_str()).as_str(),
                " 秒，已强制终止剩余 actor；可能存在待恢复交易",
            ),
        ),
    }
}

/// Gives the verdict on the whole run.
pub fn judge_run(ending: &Ending, cancelled: bool, drained: &Drained) -> (result: Result<
    (),
    String,
>)
    ensures
        match result {
            Ok(()) => fault_of(*ending, cancelled, *drained) is None,
            Err(text) => fault_of(*ending, cancelled, *drained) == Some(text@),
        },
{
    match ending {
        Ending::ShutdownRequested => judge_drain(drained),
        Ending::ActorExited { name } => if cancelled {
            judge_drain(drained)
        } else {
            Err(join("关键 actor 意外退出: ", name.as_str()))
        },
        Ending::ActorFailed { error } => Err(join("关键 actor task 异常: ", error.as_str())),
        Ending::NoActors => Err("没有可运行的关键 actor".to_owned()),
    }
}

/// A run ends well only where the shutdown was asked for and all parts finished in time.
pub proof fn law_only_an_orderly_shutdown_ends_well(
    ending: Ending,
    cancelled: bool,
    drained: Drained,
)
    requires
        fault_of(ending, cancelled, drained) is None,
    ensures
        drained is Finished,
        ending is ShutdownRequested || cancelled,
{
}

/// A part that stops before a shutdown was asked for stops all others.
pub proof fn law_losing_a_part_stops_the_system(ending: Ending)
    requires
        !(ending is ShutdownRequested),
    ensures
        shutdown_for(ending, false).cancel,
        forall|drained: Drained| #[trigger] fault_of(ending, false, drained) is Some,
{
}

/// A shutdown that was asked for, or that was under way when a part returned, ends well once all
/// parts have finished, and otherwise with what went wrong while waiting; a part that broke down
/// is always the cause that is told.
pub proof fn law_verdicts(name: String, error: String, cancelled: bool, drained: Drained)
    ensures
        fault_of(Ending::ShutdownRequested, cancelled, drained) is None <==> drained is Finished,
        fault_of(Ending::ActorExited { name }, true, drained) is None <==> drained is Finished,
        fault_of(Ending::ShutdownRequested, cancelled, drained) == fault_of(
            Ending::ActorExited { name },
            true,
            drained,
        ),
        fault_of(Ending::ActorExited { name }, false, drained) is Some,
        fault_of(Ending::ActorFailed { error }, cancelled, drained) is Some,
        fault_of(Ending::NoActors, cancelled, drained) is Some,
        forall|other: Drained|
            #![trigger fault_of(Ending::ActorFailed { error }, cancelled, other)]
            fault_of(Ending::ActorFailed { error }, cancelled, other) == fault_of(
                Ending::ActorFailed { error },
                cancelled,
                drained,
            ),
{
}

/// The other parts are told to stop unless that was already done, and are waited for wherever
/// there are any.
pub proof fn law_shutdowns(name: String, error: String, cancelled: bool)
    ensures
        !shutdown_for(Ending::ShutdownRequested, cancelled).cancel,
        shutdown_for(Ending::ActorExited { name }, cancelled).cancel == !cancelled,
        shutdown_for(Ending::ActorFailed { error }, cancelled).cancel,
        shutdown_for(Ending::ShutdownRequested, cancelled).drain,
        shutdown_for(Ending::ActorExited { name }, cancelled).drain,
        shutdown_for(Ending::ActorFailed { error }, cancelled).drain,
        !shutdown_for(Ending::NoActors, cancelled).drain,
{
}

} // verus!
