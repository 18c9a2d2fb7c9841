//! Per-guest task state and the stop-event state machine of the task
//! loop: what a delivered kernel stop means and what the loop does next.

use vstd::prelude::*;

use crate::errors::{EAGAIN, ECHILD};
use crate::protocol::{LogLevel, SysFd, SysPid, ToSand, VPid, VPtr};

verus! {

/// The signal number a child-stop notification carries.
pub const SIGCHLD: u32 = 17;

/// The signal number of a stop request.
pub const SIGSTOP: u32 = 19;

/// Child-status code: the child was stopped by the debugging interface.
pub const CLD_TRAPPED: u32 = 4;

/// Child-status code: the child exited.
pub const CLD_EXITED: u32 = 1;

/// Stop status of a fork event.
pub const PTRACE_SIG_FORK: u32 = 0x105;

/// Stop status of a post-exec event.
pub const PTRACE_SIG_EXEC: u32 = 0x405;

/// Stop status of a seccomp trap.
pub const PTRACE_SIG_SECCOMP: u32 = 0x705;

/// Stop status of a syscall-trace stop.
pub const PTRACE_SIG_TRACESYSGOOD: u32 = 0x85;

/// The tracer's per-task settings.
#[derive(Debug, Clone, Copy, PartialEq, Eq, Structural)]
pub struct TracerSettings {
    pub max_log_level: LogLevel,
}

/// The ends of the datagram socket pair a task shares with the tracer.
#[derive(Debug, Clone, Copy, PartialEq, Eq, Structural)]
pub struct TaskSocketPair {
    pub tracer: SysFd,
    pub remote: SysFd,
}

/// The emulated program break of one guest.
#[derive(Debug, Clone, Copy, PartialEq, Eq, Structural)]
pub struct TaskMemManagement {
    pub brk: VPtr,
    pub brk_start: VPtr,
}

/// Everything one live guest task carries.
#[derive(Debug, Clone, Copy, PartialEq, Eq, Structural)]
pub struct TaskData {
    pub vpid: VPid,
    pub sys_pid: SysPid,
    pub parent: Option<VPid>,
    pub socket_pair: TaskSocketPair,
    pub mm: TaskMemManagement,
    pub tracer_settings: TracerSettings,
}

/// Whether a message of severity `level` is logged under `settings`.
pub fn log_enabled(level: LogLevel, settings: &TracerSettings) -> (r: bool)
    ensures
        r == (level.rank_spec() <= settings.max_log_level.rank_spec()),
{
    level.rank() <= settings.max_log_level.rank()
}

/// One event delivered to a task: a kernel stop notification or an IPC
/// reply.
#[derive(Debug, Clone, Copy, PartialEq, Eq)]
pub enum TaskEvent {
    Signal { sig: u32, code: u32, status: u32 },
    Message(ToSand),
}

/// What the running task loop does with an event.
#[derive(Debug, Clone, Copy, PartialEq, Eq, Structural)]
pub enum RunDecision {
    /// A fork trap: adopt the new child task.
    SpawnChild,
    /// A seccomp trap: decode and emulate the syscall.
    HandleSyscall,
    /// An ordinary fatal signal stopped the guest.
    FatalSignal(u32),
    /// The guest exited with this status; the task ends.
    Exited(u32),
    /// An event the protocol does not foresee: a bug in the tracer.
    ProtocolViolation,
}

/// What the running loop does with an event: specification.
pub open spec fn run_step_spec(ev: TaskEvent) -> RunDecision {
    match ev {
        TaskEvent::Signal { sig, code, status } => {
            if sig == SIGCHLD && code == CLD_TRAPPED && status == PTRACE_SIG_FORK {
                RunDecision::SpawnChild
            } else if sig == SIGCHLD && code == CLD_TRAPPED && status == PTRACE_SIG_SECCOMP {
                RunDecision::HandleSyscall
            } else if sig == SIGCHLD && code == CLD_TRAPPED && status < 0x100 {
                RunDecision::FatalSignal(status)
            } else if sig == SIGCHLD && code == CLD_EXITED {
                RunDecision::Exited(status)
            } else {
                RunDecision::ProtocolViolation
            }
        },
        TaskEvent::Message(_) => RunDecision::ProtocolViolation,
    }
}

/// Classify one event of the running task loop.
pub fn run_step(ev: &TaskEvent) -> (r: RunDecision)
    ensures
        r == run_step_spec(*ev),
{
    match ev {
        TaskEvent::Signal { sig, code, status } => {
            if *sig == SIGCHLD && *code == CLD_TRAPPED && *status == PTRACE_SIG_FORK {
                RunDecision::SpawnChild
            } else if *sig == SIGCHLD && *code == CLD_TRAPPED && *status == PTRACE_SIG_SECCOMP {
                RunDecision::HandleSyscall
            } else if *sig == SIGCHLD && *code == CLD_TRAPPED && *status < 0x100 {
                RunDecision::FatalSignal(*status)
            } else if *sig == SIGCHLD && *code == CLD_EXITED {
                RunDecision::Exited(*status)
            } else {
                RunDecision::ProtocolViolation
            }
        },
        TaskEvent::Message(_) => RunDecision::ProtocolViolation,
    }
}

/// Whether an event is the initial stop a freshly forked task must
/// deliver before it is continued.
pub fn is_initial_stop(ev: &TaskEvent) -> (r: bool)
    ensures
        r == (ev == TaskEvent::Signal { sig: SIGCHLD, code: CLD_TRAPPED, status: SIGSTOP }),
{
    match ev {
        TaskEvent::Signal { sig, code, status } => *sig == SIGCHLD && *code == CLD_TRAPPED
            && *status == SIGSTOP,
        TaskEvent::Message(_) => false,
    }
}

/// Whether an event is the post-exec stop that moves a fresh task into
/// its running state.
pub fn is_exec_stop(ev: &TaskEvent) -> (r: bool)
    ensures
        r == (ev == TaskEvent::Signal {
            sig: SIGCHLD,
            code: CLD_TRAPPED,
            status: PTRACE_SIG_EXEC,
        }),
{
    match ev {
        TaskEvent::Signal { sig, code, status } => *sig == SIGCHLD && *code == CLD_TRAPPED
            && *status == PTRACE_SIG_EXEC,
        TaskEvent::Message(_) => false,
    }
}

/// Whether an event is the exit-side trace stop a remote syscall awaits.
pub fn is_syscall_exit_stop(ev: &TaskEvent) -> (r: bool)
    ensures
        r == (ev == TaskEvent::Signal {
            sig: SIGCHLD,
            code: CLD_TRAPPED,
            status: PTRACE_SIG_TRACESYSGOOD,
        }),
{
    match ev {
        TaskEvent::Signal { sig, code, status } => *sig == SIGCHLD && *code == CLD_TRAPPED
            && *status == PTRACE_SIG_TRACESYSGOOD,
        TaskEvent::Message(_) => false,
    }
}


/// What the tracer's top-level wait loop learned from one wait attempt.
#[derive(Debug, Clone, Copy, PartialEq, Eq, Structural)]
pub enum WaitOutcome {
    /// Every child process has exited: the tracer is done.
    AllChildrenExited,
    /// The wait was interrupted by I/O readiness; no stop was delivered.
    NoEvent,
    /// A child delivered a signal-style stop notification.
    TaskSignal { pid: SysPid, sig: u32, code: u32 },
    /// A wait result the tracer does not foresee: a bug.
    Unexpected(i32),
}

/// Classify the result of one wait for child-stop delivery.
pub fn classify_wait(err: i32, si_pid: u32, si_signo: u32, si_code: u32) -> (r: WaitOutcome)
    ensures
        err == ECHILD ==> r == WaitOutcome::AllChildrenExited,
        err == EAGAIN ==> r == WaitOutcome::NoEvent,
        err == 0 ==> r == (WaitOutcome::TaskSignal {
            pid: SysPid(si_pid),
            sig: si_signo,
            code: si_code,
        }),
        err != 0 && err != ECHILD && err != EAGAIN ==> r == WaitOutcome::Unexpected(err),
{
    if err == ECHILD {
        WaitOutcome::AllChildrenExited
    } else if err == EAGAIN {
        WaitOutcome::NoEvent
    } else if err == 0 {
        WaitOutcome::TaskSignal { pid: SysPid(si_pid), sig: si_signo, code: si_code }
    } else {
        WaitOutcome::Unexpected(err)
    }
}

} // verus!
