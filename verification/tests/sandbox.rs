//! Sandbox substrate behavior: seccomp policy decisions, the emulator's
//! dispatch table and break arithmetic, trampoline register plans, and
//! task-loop classification.

use bandsocks::abi::{
    page_round_up, syscall_from_regs, UserRegs, AT_FDCWD, NR_BRK, NR_CLOSE, NR_GETPID,
    NR_OPENAT, NR_PTRACE, NR_READ, NR_UNAME, NR_WRITE, SECCOMP_RET_ALLOW,
    SECCOMP_RET_KILL_PROCESS, SECCOMP_RET_TRACE, SYSCALL_BLOCKED,
};
use bandsocks::emulator::{
    apply_emulation, brk_plan, dispatch, return_file_result, return_result, uname_plan,
    BrkAction, DispatchPlan, ReplyKind,
};
use bandsocks::ipcserver::{
    handle_task_message, open_process_reply, task_file_reply, task_reply, IPCError,
    ProcessTable, ServerAction,
};
use bandsocks::nolibc::{c_strlen, c_unwrap_nul};
use bandsocks::protocol::{
    Errno, FromSand, LogLevel, ProcessHandle, SysFd, SysPid, SyscallRecord, ToSand, VPid,
    VPtr, VString,
};
use bandsocks::seccomp::{policy_for_loader, policy_for_tracer, run_filter};
use bandsocks::task::{
    classify_wait, log_enabled, run_step, RunDecision, TaskEvent, TaskMemManagement,
    TracerSettings, WaitOutcome, CLD_EXITED, CLD_TRAPPED, PTRACE_SIG_FORK, PTRACE_SIG_SECCOMP,
    SIGCHLD,
};
use bandsocks::taskcall::{change_working_dir, file_access, file_open, file_stat, ProcessState};
use bandsocks::trampoline::{
    exact_result, is_resync_stop, mmap_noreplace_outcome, mmap_result, noreplace_error,
    prepare_call_regs, prepare_resync_regs, restore_regs, size_result, KernelMemAreas,
    MemArea, NoreplaceOutcome, RESYNC_ARG, RESYNC_NR,
};
use bandsocks::vfs::{Filesystem, Stat, StorageKey};

fn stat_mode(mode: u32) -> Stat {
    Stat { mode, uid: 0, gid: 0, mtime: 0, nlink: 0, size: 0 }
}

fn call(nr: i64, args: [i64; 6]) -> SyscallRecord {
    SyscallRecord {
        nr,
        arg0: args[0],
        arg1: args[1],
        arg2: args[2],
        arg3: args[3],
        arg4: args[4],
        arg5: args[5],
        ret: 0,
    }
}

#[test]
fn guest_policy_decisions() {
    let prog = policy_for_loader();
    assert_eq!(run_filter(&prog, NR_PTRACE), Some(SECCOMP_RET_KILL_PROCESS));
    assert_eq!(run_filter(&prog, NR_READ), Some(SECCOMP_RET_ALLOW));
    assert_eq!(run_filter(&prog, NR_WRITE), Some(SECCOMP_RET_ALLOW));
    assert_eq!(run_filter(&prog, NR_CLOSE), Some(SECCOMP_RET_ALLOW));
    assert_eq!(run_filter(&prog, NR_OPENAT), Some(SECCOMP_RET_TRACE));
    assert_eq!(run_filter(&prog, 0xffff), Some(SECCOMP_RET_TRACE));
}

#[test]
fn tracer_policy_decisions() {
    let prog = policy_for_tracer();
    assert_eq!(run_filter(&prog, NR_PTRACE), Some(SECCOMP_RET_ALLOW));
    assert_eq!(run_filter(&prog, NR_READ), Some(SECCOMP_RET_ALLOW));
    assert_eq!(run_filter(&prog, NR_OPENAT), Some(SECCOMP_RET_TRACE));
}

#[test]
fn brk_growth() {
    let mm = TaskMemManagement { brk: VPtr(0x100000), brk_start: VPtr(0x100000) };
    let (action, mm2, ret) = brk_plan(&mm, VPtr(0x100800));
    assert_eq!(ret, 0x101000);
    assert_eq!(action, BrkAction::MapFixed { start: VPtr(0x100000), len: 0x1000 });
    assert_eq!(mm2.brk, VPtr(0x100800));
    assert_eq!(mm2.brk_start, VPtr(0x100000));
}

#[test]
fn brk_query_and_shrink() {
    let mm = TaskMemManagement { brk: VPtr(0x100800), brk_start: VPtr(0x100000) };
    let (action, mm2, ret) = brk_plan(&mm, VPtr(0));
    assert_eq!(action, BrkAction::Keep);
    assert_eq!(mm2, mm);
    assert_eq!(ret, 0x101000);
    let (action, mm3, ret) = brk_plan(&mm, VPtr(0x100000));
    assert_eq!(action, BrkAction::Unmap { start: VPtr(0x100000), len: 0x1000 });
    assert_eq!(mm3.brk, VPtr(0x100000));
    assert_eq!(ret, 0x100000);
    let grown = TaskMemManagement { brk: VPtr(0x100800), brk_start: VPtr(0x100000) };
    let (action, _, ret) = brk_plan(&grown, VPtr(0x102000));
    assert_eq!(
        action,
        BrkAction::Remap { start: VPtr(0x100000), old_len: 0x1000, new_len: 0x2000 }
    );
    assert_eq!(ret, 0x102000);
}

#[test]
fn page_rounding() {
    assert_eq!(page_round_up(0), 0);
    assert_eq!(page_round_up(1), 4096);
    assert_eq!(page_round_up(4096), 4096);
    assert_eq!(page_round_up(0x100800), 0x101000);
}

#[test]
fn unsupported_syscall() {
    let c = call(0xffff, [0; 6]);
    let plan = dispatch(&c, VPid(1));
    assert_eq!(plan, DispatchPlan::Fixed { value: -38, log: LogLevel::Error });
    let mut regs = UserRegs::zeroed();
    regs.orig_ax = 0xffff;
    apply_emulation(&mut regs, -38);
    assert_eq!(regs.ax, (-38i64) as u64);
    assert_eq!(regs.orig_ax, SYSCALL_BLOCKED as u64);
}

#[test]
fn dispatch_openat_cwd() {
    let c = call(NR_OPENAT as i64, [AT_FDCWD as i64, 0x5000, 0, 0o644, 0, 0]);
    let plan = dispatch(&c, VPid(1));
    assert_eq!(
        plan,
        DispatchPlan::IpcCall {
            request: FromSand::FileOpen {
                dir: None,
                path: VString(VPtr(0x5000)),
                flags: 0,
                mode: 0o644,
            },
            reply: ReplyKind::File,
            log: LogLevel::Debug,
        }
    );
}

#[test]
fn openat_served_from_filesystem() {
    let fs = Filesystem::new();
    let mut w = fs.writer();
    w.write_file(b"/etc/passwd", Some(StorageKey(1234)), stat_mode(0o644)).unwrap();
    let fs = w.finish();
    let vfile = file_open(&fs, b"/etc/passwd", 0, 0).unwrap();
    assert_eq!(fs.vfile_storage(&vfile).unwrap(), Some(StorageKey(1234)));
    // The storage backend resolves the key to a descriptor; the guest
    // receives its number as the syscall's return value.
    assert_eq!(return_file_result(&Ok(5)), 5);
    assert_eq!(return_file_result(&Err(Errno(-2))), -2);
}

#[test]
fn dispatch_fixed_values() {
    assert_eq!(
        dispatch(&call(NR_GETPID as i64, [0; 6]), VPid(42)),
        DispatchPlan::Fixed { value: 42, log: LogLevel::Debug }
    );
    assert_eq!(
        dispatch(&call(NR_BRK as i64, [0x200000, 0, 0, 0, 0, 0]), VPid(1)),
        DispatchPlan::Brk { new_brk: VPtr(0x200000) }
    );
    assert_eq!(
        dispatch(&call(NR_UNAME as i64, [0x3000, 0, 0, 0, 0, 0]), VPid(1)),
        DispatchPlan::Uname { dest: VPtr(0x3000) }
    );
}

#[test]
fn uname_fixed_strings() {
    let plan = uname_plan();
    assert_eq!(plan.len(), 5);
    assert_eq!(plan[0].offset, 0);
    assert_eq!(plan[0].bytes, b"Linux\0".to_vec());
    assert_eq!(plan[1].offset, 65);
    assert_eq!(plan[1].bytes, b"host\0".to_vec());
    assert_eq!(plan[2].offset, 130);
    assert_eq!(plan[2].bytes, b"4.0.0-sandbox\0".to_vec());
    assert_eq!(plan[3].offset, 195);
    assert_eq!(plan[3].bytes, b"#1 SMP\0".to_vec());
    assert_eq!(plan[4].offset, 260);
    assert_eq!(plan[4].bytes, b"x86_64\0".to_vec());
}

#[test]
fn trampoline_register_roundtrip() {
    let mut saved = UserRegs::zeroed();
    saved.ip = 0x401000;
    saved.sp = 0x7ffd1000;
    saved.ax = 0xaa;
    saved.orig_ax = 0x3;
    saved.di = 0x11;
    let entered = prepare_call_regs(&saved, 9, &[1, 2, 3, 4, 5, 6]);
    assert_eq!(entered.orig_ax, 9);
    assert_eq!(entered.di, 1);
    assert_eq!(entered.r9, 6);
    assert_eq!(entered.ip, saved.ip);
    assert_eq!(entered.sp, saved.sp);
    let mut exit_regs = entered;
    exit_regs.ax = (-12i64) as u64;
    let resync = prepare_resync_regs(&exit_regs, VPtr(0x7fff0000));
    assert_eq!(resync.ip, 0x7fff0000);
    assert_eq!(resync.sp, 0);
    assert_eq!(resync.ax, RESYNC_NR as u64);
    assert_eq!(resync.di, RESYNC_ARG as u64);
    let mut stop = resync;
    stop.orig_ax = RESYNC_NR as u64;
    assert!(is_resync_stop(&stop));
    let restored = restore_regs(&saved);
    assert_eq!(restored, saved);
}

#[test]
fn resync_stop_recognition() {
    let mut regs = UserRegs::zeroed();
    regs.orig_ax = RESYNC_NR as u64;
    regs.di = RESYNC_ARG as u64;
    regs.si = RESYNC_ARG as u64;
    regs.dx = RESYNC_ARG as u64;
    regs.r10 = RESYNC_ARG as u64;
    regs.r8 = RESYNC_ARG as u64;
    regs.r9 = RESYNC_ARG as u64;
    assert!(is_resync_stop(&regs));
    regs.di = 0;
    assert!(!is_resync_stop(&regs));
    let c = syscall_from_regs(&regs);
    assert_eq!(c.nr, RESYNC_NR);
}

#[test]
fn remote_result_classification() {
    assert_eq!(mmap_result(0x7000), Ok(VPtr(0x7000)));
    assert_eq!(mmap_result(-12), Err(Errno(-12)));
    assert_eq!(size_result(10), Ok(10));
    assert_eq!(size_result(-5), Err(Errno(-5)));
    assert_eq!(exact_result(Ok(16), 16), Ok(()));
    assert_eq!(exact_result(Ok(8), 16), Err(Errno(-5)));
    assert_eq!(exact_result(Err(Errno(-9)), 16), Err(Errno(-9)));
}

#[test]
fn noreplace_rollback() {
    let want = VPtr(0x100000);
    assert_eq!(mmap_noreplace_outcome(want, Ok(want)), NoreplaceOutcome::Done);
    assert_eq!(
        mmap_noreplace_outcome(want, Ok(VPtr(0x200000))),
        NoreplaceOutcome::RollbackAt(VPtr(0x200000))
    );
    assert_eq!(
        mmap_noreplace_outcome(want, Err(Errno(-12))),
        NoreplaceOutcome::Failed(Errno(-12))
    );
    assert_eq!(noreplace_error(), Errno(-17));
}

#[test]
fn userspace_area_selection() {
    let k = KernelMemAreas {
        vdso: MemArea { start: 0x7000, end: 0x8000 },
        vvar: MemArea { start: 0x6000, end: 0x7000 },
        vsyscall: Some(MemArea { start: 0xff00, end: 0xff10 }),
        vdso_syscall: VPtr(0x7004),
    };
    assert!(k.is_userspace_area(&MemArea { start: 0x1000, end: 0x2000 }));
    assert!(!k.is_userspace_area(&MemArea { start: 0x7800, end: 0x7900 }));
    assert!(!k.is_userspace_area(&MemArea { start: 0x6100, end: 0x6200 }));
    assert!(!k.is_userspace_area(&MemArea { start: 0xff00, end: 0xff08 }));
}

#[test]
fn run_loop_classification() {
    assert_eq!(
        run_step(&TaskEvent::Signal { sig: SIGCHLD, code: CLD_TRAPPED, status: PTRACE_SIG_FORK }),
        RunDecision::SpawnChild
    );
    assert_eq!(
        run_step(&TaskEvent::Signal {
            sig: SIGCHLD,
            code: CLD_TRAPPED,
            status: PTRACE_SIG_SECCOMP,
        }),
        RunDecision::HandleSyscall
    );
    assert_eq!(
        run_step(&TaskEvent::Signal { sig: SIGCHLD, code: CLD_TRAPPED, status: 11 }),
        RunDecision::FatalSignal(11)
    );
    assert_eq!(
        run_step(&TaskEvent::Signal { sig: SIGCHLD, code: CLD_EXITED, status: 3 }),
        RunDecision::Exited(3)
    );
    assert_eq!(
        run_step(&TaskEvent::Signal { sig: 9, code: CLD_TRAPPED, status: 3 }),
        RunDecision::ProtocolViolation
    );
}

#[test]
fn wait_classification() {
    assert_eq!(classify_wait(10, 0, 0, 0), WaitOutcome::AllChildrenExited);
    assert_eq!(classify_wait(11, 0, 0, 0), WaitOutcome::NoEvent);
    assert_eq!(
        classify_wait(0, 321, SIGCHLD, CLD_TRAPPED),
        WaitOutcome::TaskSignal { pid: SysPid(321), sig: SIGCHLD, code: CLD_TRAPPED }
    );
    assert_eq!(classify_wait(-1, 0, 0, 0), WaitOutcome::Unexpected(-1));
}

#[test]
fn log_level_filtering() {
    let quiet = TracerSettings { max_log_level: LogLevel::Warn };
    assert!(log_enabled(LogLevel::Error, &quiet));
    assert!(log_enabled(LogLevel::Warn, &quiet));
    assert!(!log_enabled(LogLevel::Info, &quiet));
    assert!(!log_enabled(LogLevel::Trace, &quiet));
}

#[test]
fn process_table_lifecycle() {
    let fs = Filesystem::new();
    let root = fs.open_root();
    let mut table = ProcessTable::new();
    let reply = open_process_reply(&mut table, VPid(7), root, ProcessHandle(1)).unwrap();
    assert_eq!(
        reply.op,
        ToSand::OpenProcessReply(ProcessHandle(1))
    );
    assert!(table.contains(VPid(7)));
    assert_eq!(
        open_process_reply(&mut table, VPid(7), root, ProcessHandle(2)),
        Err(IPCError::WrongProcessState)
    );
    assert!(table.get(VPid(7)).is_some());
    assert!(table.get(VPid(8)).is_none());
    let r = task_reply(VPid(7), Err(Errno(-2)));
    assert_eq!(r.op, ToSand::Reply(Err(Errno(-2))));
    let fr = task_file_reply(VPid(7), Ok(SysFd(3)));
    assert_eq!(fr.op, ToSand::FileReply(Ok(SysFd(3))));
}

#[test]
fn server_request_gate() {
    let fs = Filesystem::new();
    let mut w = fs.writer();
    w.write_file(b"/etc/passwd", Some(StorageKey(21)), stat_mode(0o644)).unwrap();
    let fs = w.finish();
    let mut table = ProcessTable::new();
    let t = VPid(4);
    let h = ProcessHandle(1);
    let open_req = FromSand::FileOpen {
        dir: None,
        path: VString(VPtr(0x100)),
        flags: 0,
        mode: 0,
    };
    // Any per-process request from an unknown task is a protocol
    // violation.
    assert_eq!(
        handle_task_message(&mut table, &fs, t, &open_req, h, b"/etc/passwd"),
        Err(IPCError::WrongProcessState)
    );
    // Opening the process registers it; doing so twice is refused.
    let r = handle_task_message(&mut table, &fs, t, &FromSand::OpenProcess(SysPid(9)), h,
        b"")
        .unwrap();
    assert!(matches!(r, ServerAction::Send(_)));
    assert_eq!(
        handle_task_message(&mut table, &fs, t, &FromSand::OpenProcess(SysPid(9)), h, b""),
        Err(IPCError::WrongProcessState)
    );
    // A known task's file open resolves to the content key for storage.
    assert_eq!(
        handle_task_message(&mut table, &fs, t, &open_req, h, b"/etc/passwd"),
        Ok(ServerAction::SendFile { task: t, key: Some(StorageKey(21)) })
    );
    // A missing path is answered with an errno reply, not a violation.
    match handle_task_message(&mut table, &fs, t, &open_req, h, b"/absent").unwrap() {
        ServerAction::Send(m) => assert_eq!(m.op, ToSand::FileReply(Err(Errno(-2)))),
        other => panic!("unexpected action {:?}", other),
    }
    // Logs need no reply and no registration.
    assert_eq!(
        handle_task_message(&mut table, &fs, VPid(99), &FromSand::Exited(0), h, b""),
        Ok(ServerAction::NoReply)
    );
}

#[test]
fn taskcall_paths() {
    let fs = Filesystem::new();
    let mut w = fs.writer();
    w.write_directory_metadata(b"/home", stat_mode(0o755)).unwrap();
    w.write_file(b"/home/file", Some(StorageKey(8)), stat_mode(0o644)).unwrap();
    w.write_symlink(b"/home/ln", b"/home/file", stat_mode(0o777)).unwrap();
    let fs = w.finish();
    let mut state = ProcessState { current_dir: fs.open_root() };
    change_working_dir(&mut state, &fs, b"/home").unwrap();
    assert_eq!(
        change_working_dir(&mut state, &fs, b"/home/file"),
        Err(Errno(-20))
    );
    assert_eq!(change_working_dir(&mut state, &fs, b"/nope"), Err(Errno(-2)));
    file_access(&fs, b"/home/file", 4).unwrap();
    assert_eq!(file_access(&fs, b"/absent", 4), Err(Errno(-2)));
    let followed = file_stat(&fs, b"/home/ln", false).unwrap();
    assert_eq!(followed.stat.mode, 0o644);
    let raw = file_stat(&fs, b"/home/ln", true).unwrap();
    assert_eq!(raw.stat.mode, 0o777);
}

#[test]
fn unit_results_for_guest() {
    assert_eq!(return_result(&Ok(())), 0);
    assert_eq!(return_result(&Err(Errno(-2))), -2);
}

#[test]
fn c_string_helpers() {
    assert_eq!(c_unwrap_nul(b"abc\0"), b"abc");
    assert_eq!(c_strlen(b"abc\0xyz"), 3);
    assert_eq!(c_strlen(b"\0"), 0);
}
