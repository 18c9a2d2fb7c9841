//! The syscall emulator's decision core: translate one intercepted
//! syscall into a fixed answer, a program-break adjustment, a request to
//! the tracer's server, or a rejection; and write the outcome back into
//! the guest's registers with the trapped call rewritten to the blocked
//! sentinel.

use vstd::prelude::*;

use crate::abi::{
    page_round_up, page_round_up_spec, UserRegs, AT_FDCWD, AT_SYMLINK_NOFOLLOW, NR_ACCESS,
    NR_BRK, NR_CHDIR, NR_EXECVE, NR_FSTAT, NR_GETCWD, NR_GETEGID, NR_GETEUID, NR_GETGID,
    NR_GETPGID, NR_GETPGRP, NR_GETPID, NR_GETPPID, NR_GETUID, NR_IOCTL, NR_LSTAT,
    NR_NEWFSTATAT, NR_OPEN, NR_OPENAT, NR_SETPGID, NR_SET_TID_ADDRESS, NR_STAT, NR_SYSINFO,
    NR_UNAME, SYSCALL_BLOCKED,
};
use crate::errors::ENOSYS;
use crate::protocol::{
    Errno, FromSand, LogLevel, SyscallRecord, VPid, VPtr, VString,
};
use crate::task::TaskMemManagement;

verus! {

/// How an IPC reply is turned into a syscall return value.
#[derive(Debug, Clone, Copy, PartialEq, Eq, Structural)]
pub enum ReplyKind {
    /// A unit reply: zero on success.
    Unit,
    /// A file reply: the injected descriptor number.
    File,
    /// A stat reply to be marshaled at this guest address.
    Stat(VPtr),
    /// A size reply.
    Size,
}

/// What the emulator does with one intercepted syscall.
#[derive(Debug, Clone, Copy, PartialEq, Eq)]
pub enum DispatchPlan {
    /// Answer with a fixed value, logging at the given level.
    Fixed { value: i64, log: LogLevel },
    /// Adjust the emulated program break.
    Brk { new_brk: VPtr },
    /// Load a new program image.
    Execve { filename: VString, argv: VPtr, envp: VPtr },
    /// Write the synthesized system identification into guest memory.
    Uname { dest: VPtr },
    /// Ask the tracer's server and map its reply as `reply` says.
    IpcCall { request: FromSand, reply: ReplyKind, log: LogLevel },
}

/// The value every unrecognized syscall receives.
pub open spec fn nosys_value() -> i64 {
    -(ENOSYS as int) as i64
}

/// The emulator's dispatch table: what each intercepted syscall becomes.
/// Anything unrecognized is answered with the no-such-syscall error and
/// logged as an error.
pub open spec fn dispatch_spec(call: SyscallRecord, vpid: VPid) -> DispatchPlan {
    let nr = call.nr;
    if nr == NR_BRK as i64 {
        DispatchPlan::Brk { new_brk: VPtr(call.arg0 as u64) }
    } else if nr == NR_EXECVE as i64 {
        DispatchPlan::Execve {
            filename: VString(VPtr(call.arg0 as u64)),
            argv: VPtr(call.arg1 as u64),
            envp: VPtr(call.arg2 as u64),
        }
    } else if nr == NR_GETPID as i64 {
        DispatchPlan::Fixed { value: vpid.0 as i64, log: LogLevel::Debug }
    } else if nr == NR_GETPPID as i64 {
        DispatchPlan::Fixed { value: 1, log: LogLevel::Warn }
    } else if nr == NR_GETUID as i64 || nr == NR_GETGID as i64 || nr == NR_GETEUID as i64 || nr
        == NR_GETEGID as i64 || nr == NR_GETPGRP as i64 || nr == NR_SETPGID as i64 || nr
        == NR_GETPGID as i64 || nr == NR_SYSINFO as i64 || nr == NR_SET_TID_ADDRESS as i64 || nr
        == NR_IOCTL as i64 || nr == NR_FSTAT as i64 {
        DispatchPlan::Fixed { value: 0, log: LogLevel::Warn }
    } else if nr == NR_UNAME as i64 {
        DispatchPlan::Uname { dest: VPtr(call.arg0 as u64) }
    } else if nr == NR_STAT as i64 {
        DispatchPlan::IpcCall {
            request: FromSand::FileStat {
                file: None,
                path: Some(VString(VPtr(call.arg0 as u64))),
                nofollow: false,
            },
            reply: ReplyKind::Stat(VPtr(call.arg1 as u64)),
            log: LogLevel::Warn,
        }
    } else if nr == NR_LSTAT as i64 {
        DispatchPlan::IpcCall {
            request: FromSand::FileStat {
                file: None,
                path: Some(VString(VPtr(call.arg0 as u64))),
                nofollow: true,
            },
            reply: ReplyKind::Stat(VPtr(call.arg1 as u64)),
            log: LogLevel::Warn,
        }
    } else if nr == NR_NEWFSTATAT as i64 && call.arg0 == AT_FDCWD as i64 {
        DispatchPlan::IpcCall {
            request: FromSand::FileStat {
                file: None,
                path: Some(VString(VPtr(call.arg1 as u64))),
                nofollow: (call.arg3 as i32 & AT_SYMLINK_NOFOLLOW) != 0,
            },
            reply: ReplyKind::Stat(VPtr(call.arg2 as u64)),
            log: LogLevel::Warn,
        }
    } else if nr == NR_ACCESS as i64 {
        DispatchPlan::IpcCall {
            request: FromSand::FileAccess {
                dir: None,
                path: VString(VPtr(call.arg0 as u64)),
                mode: call.arg1 as i32,
            },
            reply: ReplyKind::Unit,
            log: LogLevel::Warn,
        }
    } else if nr == NR_GETCWD as i64 {
        DispatchPlan::IpcCall {
            request: FromSand::GetWorkingDir(VString(VPtr(call.arg0 as u64)), call.arg1 as u64),
            reply: ReplyKind::Size,
            log: LogLevel::Warn,
        }
    } else if nr == NR_CHDIR as i64 {
        DispatchPlan::IpcCall {
            request: FromSand::ChangeWorkingDir(VString(VPtr(call.arg0 as u64))),
            reply: ReplyKind::Unit,
            log: LogLevel::Warn,
        }
    } else if nr == NR_OPEN as i64 {
        DispatchPlan::IpcCall {
            request: FromSand::FileOpen {
                dir: None,
                path: VString(VPtr(call.arg0 as u64)),
                flags: call.arg1 as i32,
                mode: call.arg2 as i32,
            },
            reply: ReplyKind::File,
            log: LogLevel::Debug,
        }
    } else if nr == NR_OPENAT as i64 && call.arg0 == AT_FDCWD as i64 {
        DispatchPlan::IpcCall {
            request: FromSand::FileOpen {
                dir: None,
                path: VString(VPtr(call.arg1 as u64)),
                flags: call.arg2 as i32,
                mode: call.arg3 as i32,
            },
            reply: ReplyKind::File,
            log: LogLevel::Debug,
        }
    } else {
        DispatchPlan::Fixed { value: nosys_value(), log: LogLevel::Error }
    }
}

/// The unsigned address carried in a syscall argument.
fn arg_u64(x: i64) -> (r: u64)
    ensures
        r == x as u64,
{
    #[verifier::truncate] (x as u64)
}

/// The 32-bit value carried in a syscall argument.
fn arg_i32(x: i64) -> (r: i32)
    ensures
        r == x as i32,
{
    #[verifier::truncate] (x as i32)
}

/// Decide what to do with one intercepted syscall.
pub fn dispatch(call: &SyscallRecord, vpid: VPid) -> (r: DispatchPlan)
    ensures
        r == dispatch_spec(*call, vpid),
{
    let nr = call.nr;
    if nr == NR_BRK as i64 {
        DispatchPlan::Brk { new_brk: VPtr(arg_u64(call.arg0)) }
    } else if nr == NR_EXECVE as i64 {
        DispatchPlan::Execve {
            filename: VString(VPtr(arg_u64(call.arg0))),
            argv: VPtr(arg_u64(call.arg1)),
            envp: VPtr(arg_u64(call.arg2)),
        }
    } else if nr == NR_GETPID as i64 {
        DispatchPlan::Fixed { value: vpid.0 as i64, log: LogLevel::Debug }
    } else if nr == NR_GETPPID as i64 {
        DispatchPlan::Fixed { value: 1, log: LogLevel::Warn }
    } else if nr == NR_GETUID as i64 || nr == NR_GETGID as i64 || nr == NR_GETEUID as i64 || nr
        == NR_GETEGID as i64 || nr == NR_GETPGRP as i64 || nr == NR_SETPGID as i64 || nr
        == NR_GETPGID as i64 || nr == NR_SYSINFO as i64 || nr == NR_SET_TID_ADDRESS as i64 || nr
        == NR_IOCTL as i64 || nr == NR_FSTAT as i64 {
        DispatchPlan::Fixed { value: 0, log: LogLevel::Warn }
    } else if nr == NR_UNAME as i64 {
        DispatchPlan::Uname { dest: VPtr(arg_u64(call.arg0)) }
    } else if nr == NR_STAT as i64 {
        DispatchPlan::IpcCall {
            request: FromSand::FileStat {
                file: None,
                path: Some(VString(VPtr(arg_u64(call.arg0)))),
                nofollow: false,
            },
            reply: ReplyKind::Stat(VPtr(arg_u64(call.arg1))),
            log: LogLevel::Warn,
        }
    } else if nr == NR_LSTAT as i64 {
        DispatchPlan::IpcCall {
            request: FromSand::FileStat {
                file: None,
                path: Some(VString(VPtr(arg_u64(call.arg0)))),
                nofollow: true,
            },
            reply: ReplyKind::Stat(VPtr(arg_u64(call.arg1))),
            log: LogLevel::Warn,
        }
    } else if nr == NR_NEWFSTATAT as i64 && call.arg0 == AT_FDCWD as i64 {
        DispatchPlan::IpcCall {
            request: FromSand::FileStat {
                file: None,
                path: Some(VString(VPtr(arg_u64(call.arg1)))),
                nofollow: (arg_i32(call.arg3) & AT_SYMLINK_NOFOLLOW) != 0,
            },
            reply: ReplyKind::Stat(VPtr(arg_u64(call.arg2))),
            log: LogLevel::Warn,
        }
    } else if nr == NR_ACCESS as i64 {
        DispatchPlan::IpcCall {
            request: FromSand::FileAccess {
                dir: None,
                path: VString(VPtr(arg_u64(call.arg0))),
                mode: arg_i32(call.arg1),
            },
            reply: ReplyKind::Unit,
            log: LogLevel::Warn,
        }
    } else if nr == NR_GETCWD as i64 {
        DispatchPlan::IpcCall {
            request: FromSand::GetWorkingDir(VString(VPtr(arg_u64(call.arg0))), arg_u64(
                call.arg1,
            )),
            reply: ReplyKind::Size,
            log: LogLevel::Warn,
        }
    } else if nr == NR_CHDIR as i64 {
        DispatchPlan::IpcCall {
            request: FromSand::ChangeWorkingDir(VString(VPtr(arg_u64(call.arg0)))),
            reply: ReplyKind::Unit,
            log: LogLevel::Warn,
        }
    } else if nr == NR_OPEN as i64 {
        DispatchPlan::IpcCall {
            request: FromSand::FileOpen {
                dir: None,
                path: VString(VPtr(arg_u64(call.arg0))),
                flags: arg_i32(call.arg1),
                mode: arg_i32(call.arg2),
            },
            reply: ReplyKind::File,
            log: LogLevel::Debug,
        }
    } else if nr == NR_OPENAT as i64 && call.arg0 == AT_FDCWD as i64 {
        DispatchPlan::IpcCall {
            request: FromSand::FileOpen {
                dir: None,
                path: VString(VPtr(arg_u64(call.arg1))),
                flags: arg_i32(call.arg2),
                mode: arg_i32(call.arg3),
            },
            reply: ReplyKind::File,
            log: LogLevel::Debug,
        }
    } else {
        DispatchPlan::Fixed { value: 0 - (ENOSYS as i64), log: LogLevel::Error }
    }
}

/// The memory operation an emulated break adjustment performs in the
/// guest.
#[derive(Debug, Clone, Copy, PartialEq, Eq, Structural)]
pub enum BrkAction {
    /// The page span is unchanged: nothing to do.
    Keep,
    /// Shrink the arena back to its start.
    Unmap { start: VPtr, len: u64 },
    /// Map the arena's first pages fresh, readable and writable, without
    /// replacing an existing mapping.
    MapFixed { start: VPtr, len: u64 },
    /// Move the arena's end.
    Remap { start: VPtr, old_len: u64, new_len: u64 },
}

/// Highest guest address the break may take, so page rounding stays in
/// range.
pub const BRK_MAX: u64 = 0x7fff_ffff_f000;

/// The larger of two addresses.
pub open spec fn umax(a: u64, b: u64) -> u64 {
    if a >= b {
        a
    } else {
        b
    }
}

/// What an emulated break adjustment does: the memory operation, the new
/// break bookkeeping, and the page-rounded value returned to the guest.
pub open spec fn brk_plan_spec(mm: TaskMemManagement, new_brk: VPtr)
    -> (BrkAction, TaskMemManagement, u64)
{
    if new_brk.0 == 0 {
        (BrkAction::Keep, mm, page_round_up_spec(umax(mm.brk_start.0, mm.brk.0)) as u64)
    } else {
        let start = mm.brk_start.0;
        let old_page = page_round_up_spec(umax(start, mm.brk.0)) as u64;
        let new_page = page_round_up_spec(umax(start, new_brk.0)) as u64;
        let mm2 = TaskMemManagement { brk: VPtr(umax(start, new_brk.0)), brk_start: mm.brk_start };
        if new_page == old_page {
            (BrkAction::Keep, mm2, new_page)
        } else if new_page == start {
            (BrkAction::Unmap { start: mm.brk_start, len: (old_page - start) as u64 }, mm2,
            new_page)
        } else if old_page == start {
            (BrkAction::MapFixed { start: mm.brk_start, len: (new_page - start) as u64 }, mm2,
            new_page)
        } else {
            (
                BrkAction::Remap {
                    start: mm.brk_start,
                    old_len: (old_page - start) as u64,
                    new_len: (new_page - start) as u64,
                },
                mm2,
                new_page,
            )
        }
    }
}

/// Plan an emulated break adjustment. The caller performs the returned
/// memory operation in the guest; when it succeeds, the new bookkeeping
/// is committed and the rounded break value answered to the guest.
pub fn brk_plan(mm: &TaskMemManagement, new_brk: VPtr)
    -> (r: (BrkAction, TaskMemManagement, u64))
    requires
        mm.brk_start.0 <= mm.brk.0 <= BRK_MAX,
        new_brk.0 <= BRK_MAX,
        mm.brk_start.0 % crate::abi::PAGE_SIZE == 0,
    ensures
        r == brk_plan_spec(*mm, new_brk),
{
    if new_brk.0 == 0 {
        let cur = if mm.brk_start.0 >= mm.brk.0 {
            mm.brk_start.0
        } else {
            mm.brk.0
        };
        return (BrkAction::Keep, *mm, page_round_up(cur));
    }
    let start = mm.brk_start.0;
    let old_top = if start >= mm.brk.0 {
        start
    } else {
        mm.brk.0
    };
    let new_top = if start >= new_brk.0 {
        start
    } else {
        new_brk.0
    };
    let old_page = page_round_up(old_top);
    let new_page = page_round_up(new_top);
    let mm2 = TaskMemManagement { brk: VPtr(new_top), brk_start: mm.brk_start };
    if new_page == old_page {
        (BrkAction::Keep, mm2, new_page)
    } else if new_page == start {
        (BrkAction::Unmap { start: mm.brk_start, len: old_page - start }, mm2, new_page)
    } else if old_page == start {
        (BrkAction::MapFixed { start: mm.brk_start, len: new_page - start }, mm2, new_page)
    } else {
        (
            BrkAction::Remap {
                start: mm.brk_start,
                old_len: old_page - start,
                new_len: new_page - start,
            },
            mm2,
            new_page,
        )
    }
}

/// One fixed byte string the synthesized system identification writes
/// into the guest's buffer.
#[derive(Debug, Clone, PartialEq, Eq)]
pub struct UnameWrite {
    pub offset: u64,
    pub bytes: Vec<u8>,
}

/// Field offsets within the system-identification record.
pub const UTS_SYSNAME: u64 = 0;
pub const UTS_NODENAME: u64 = 65;
pub const UTS_RELEASE: u64 = 130;
pub const UTS_VERSION: u64 = 195;
pub const UTS_MACHINE: u64 = 260;

/// The synthesized system identification, as writes at the record's
/// field offsets: "Linux", "host", "4.0.0-sandbox", "#1 SMP" and
/// "x86_64", each with a terminating zero.
pub fn uname_plan() -> (r: Vec<UnameWrite>)
    ensures
        r@.len() == 5,
        r@[0].offset == UTS_SYSNAME && r@[0].bytes@ == seq![76u8, 105, 110, 117, 120, 0],
        r@[1].offset == UTS_NODENAME && r@[1].bytes@ == seq![104u8, 111, 115, 116, 0],
        r@[2].offset == UTS_RELEASE && r@[2].bytes@ == seq![
            52u8, 46, 48, 46, 48, 45, 115, 97, 110, 100, 98, 111, 120, 0,
        ],
        r@[3].offset == UTS_VERSION && r@[3].bytes@ == seq![35u8, 49, 32, 83, 77, 80, 0],
        r@[4].offset == UTS_MACHINE && r@[4].bytes@ == seq![120u8, 56, 54, 95, 54, 52, 0],
{
    let mut sysname: Vec<u8> = Vec::new();
    sysname.push(76);
    sysname.push(105);
    sysname.push(110);
    sysname.push(117);
    sysname.push(120);
    sysname.push(0);
    let mut nodename: Vec<u8> = Vec::new();
    nodename.push(104);
    nodename.push(111);
    nodename.push(115);
    nodename.push(116);
    nodename.push(0);
    let mut release: Vec<u8> = Vec::new();
    release.push(52);
    release.push(46);
    release.push(48);
    release.push(46);
    release.push(48);
    release.push(45);
    release.push(115);
    release.push(97);
    release.push(110);
    release.push(100);
    release.push(98);
    release.push(111);
    release.push(120);
    release.push(0);
    let mut version: Vec<u8> = Vec::new();
    version.push(35);
    version.push(49);
    version.push(32);
    version.push(83);
    version.push(77);
    version.push(80);
    version.push(0);
    let mut machine: Vec<u8> = Vec::new();
    machine.push(120);
    machine.push(56);
    machine.push(54);
    machine.push(95);
    machine.push(54);
    machine.push(52);
    machine.push(0);
    proof {
        assert(sysname@ =~= seq![76u8, 105, 110, 117, 120, 0]);
        assert(nodename@ =~= seq![104u8, 111, 115, 116, 0]);
        assert(release@ =~= seq![52u8, 46, 48, 46, 48, 45, 115, 97, 110, 100, 98, 111, 120, 0]);
        assert(version@ =~= seq![35u8, 49, 32, 83, 77, 80, 0]);
        assert(machine@ =~= seq![120u8, 56, 54, 95, 54, 52, 0]);
    }
    let mut r: Vec<UnameWrite> = Vec::new();
    r.push(UnameWrite { offset: UTS_SYSNAME, bytes: sysname });
    r.push(UnameWrite { offset: UTS_NODENAME, bytes: nodename });
    r.push(UnameWrite { offset: UTS_RELEASE, bytes: release });
    r.push(UnameWrite { offset: UTS_VERSION, bytes: version });
    r.push(UnameWrite { offset: UTS_MACHINE, bytes: machine });
    r
}

/// The return value of a unit result: zero on success, the negated error
/// number otherwise. Error numbers are negative already.
pub fn return_result(res: &Result<(), Errno>) -> (r: i64)
    requires
        res is Err ==> res->Err_0.0 < 0,
    ensures
        res is Ok ==> r == 0,
        res is Err ==> r == res->Err_0.0 as i64,
{
    match res {
        Ok(_) => 0,
        Err(e) => e.0 as i64,
    }
}

/// The return value of a pointer result.
pub fn return_vptr_result(res: &Result<VPtr, Errno>) -> (r: i64)
    requires
        res is Err ==> res->Err_0.0 < 0,
    ensures
        res is Ok ==> r == res->Ok_0.0 as i64,
        res is Err ==> r == res->Err_0.0 as i64,
{
    match res {
        Ok(p) => to_i64(p.0),
        Err(e) => e.0 as i64,
    }
}

/// The return value of a size result.
pub fn return_size_result(res: &Result<u64, Errno>) -> (r: i64)
    requires
        res is Err ==> res->Err_0.0 < 0,
    ensures
        res is Ok ==> r == res->Ok_0 as i64,
        res is Err ==> r == res->Err_0.0 as i64,
{
    match res {
        Ok(s) => to_i64(*s),
        Err(e) => e.0 as i64,
    }
}

/// The return value of an injected-descriptor result.
pub fn return_file_result(res: &Result<u32, Errno>) -> (r: i64)
    requires
        res is Err ==> res->Err_0.0 < 0,
    ensures
        res is Ok ==> r == res->Ok_0 as i64,
        res is Err ==> r == res->Err_0.0 as i64,
{
    match res {
        Ok(fd) => *fd as i64,
        Err(e) => e.0 as i64,
    }
}

/// Write an emulation outcome into the guest's registers: the return
/// value in the return register, and the trapped call's number rewritten
/// to the blocked sentinel so the kernel consumes the original call
/// without executing it.
pub fn apply_emulation(regs: &mut UserRegs, ret: i64)
    ensures
        *final(regs) == (UserRegs {
            ax: ret as u64,
            orig_ax: SYSCALL_BLOCKED as u64,
            ..*old(regs)
        }),
{
    crate::abi::ret_to_regs(ret, regs);
    crate::abi::orig_nr_to_regs(SYSCALL_BLOCKED, regs);
}

/// The signed image of an unsigned value, for register writing.
fn to_i64(x: u64) -> (r: i64)
    ensures
        r == x as i64,
{
    #[verifier::truncate] (x as i64)
}

} // verus!
