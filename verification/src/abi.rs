//! Kernel interface constants and the guest register file: x86-64 syscall
//! numbers, page arithmetic, seccomp filter return values, and the
//! register conventions the emulator and trampoline rely on.

use vstd::prelude::*;

use crate::protocol::SyscallRecord;

verus! {

/// Size of one page of guest memory.
pub const PAGE_SIZE: u64 = 4096;

// x86-64 syscall numbers.
pub const NR_READ: u32 = 0;
pub const NR_WRITE: u32 = 1;
pub const NR_OPEN: u32 = 2;
pub const NR_CLOSE: u32 = 3;
pub const NR_STAT: u32 = 4;
pub const NR_FSTAT: u32 = 5;
pub const NR_LSTAT: u32 = 6;
pub const NR_MMAP: u32 = 9;
pub const NR_MUNMAP: u32 = 11;
pub const NR_BRK: u32 = 12;
pub const NR_RT_SIGRETURN: u32 = 15;
pub const NR_IOCTL: u32 = 16;
pub const NR_PREAD64: u32 = 17;
pub const NR_PWRITE64: u32 = 18;
pub const NR_READV: u32 = 19;
pub const NR_WRITEV: u32 = 20;
pub const NR_ACCESS: u32 = 21;
pub const NR_MREMAP: u32 = 25;
pub const NR_NANOSLEEP: u32 = 35;
pub const NR_GETPID: u32 = 39;
pub const NR_SENDFILE: u32 = 40;
pub const NR_SENDMSG: u32 = 46;
pub const NR_RECVMSG: u32 = 47;
pub const NR_FORK: u32 = 57;
pub const NR_EXECVE: u32 = 59;
pub const NR_EXIT: u32 = 60;
pub const NR_KILL: u32 = 62;
pub const NR_UNAME: u32 = 63;
pub const NR_FCNTL: u32 = 72;
pub const NR_GETCWD: u32 = 79;
pub const NR_CHDIR: u32 = 80;
pub const NR_SYSINFO: u32 = 99;
pub const NR_PTRACE: u32 = 101;
pub const NR_GETUID: u32 = 102;
pub const NR_GETGID: u32 = 104;
pub const NR_GETEUID: u32 = 107;
pub const NR_GETEGID: u32 = 108;
pub const NR_SETPGID: u32 = 109;
pub const NR_GETPPID: u32 = 110;
pub const NR_GETPGRP: u32 = 111;
pub const NR_GETPGID: u32 = 121;
pub const NR_PRCTL: u32 = 157;
pub const NR_ARCH_PRCTL: u32 = 158;
pub const NR_SET_TID_ADDRESS: u32 = 218;
pub const NR_EXIT_GROUP: u32 = 231;
pub const NR_WAITID: u32 = 247;
pub const NR_OPENAT: u32 = 257;
pub const NR_NEWFSTATAT: u32 = 262;
pub const NR_GETRANDOM: u32 = 318;
pub const NR_COPY_FILE_RANGE: u32 = 326;

// Seccomp filter return values.
pub const SECCOMP_RET_ALLOW: u32 = 0x7fff0000;
pub const SECCOMP_RET_TRACE: u32 = 0x7ff00000;
pub const SECCOMP_RET_KILL_PROCESS: u32 = 0x80000000;

/// The `openat` flag naming the current working directory.
pub const AT_FDCWD: i32 = -100;

/// The `fstatat` flag that suppresses tail symlink resolution.
pub const AT_SYMLINK_NOFOLLOW: i32 = 0x100;

/// Sentinel written into `orig_ax` so the kernel consumes the trapped
/// syscall without executing it.
pub const SYSCALL_BLOCKED: i64 = -1;

/// Round an address up to the next page boundary.
pub open spec fn page_round_up_spec(x: u64) -> int {
    ((x + PAGE_SIZE - 1) / (PAGE_SIZE as int)) * (PAGE_SIZE as int)
}

/// Round an address up to the next page boundary.
pub fn page_round_up(x: u64) -> (r: u64)
    requires
        x + PAGE_SIZE - 1 <= u64::MAX,
    ensures
        r == page_round_up_spec(x),
        r % PAGE_SIZE == 0,
        x <= r < x + PAGE_SIZE,
{
    let r = ((x + (PAGE_SIZE - 1)) / PAGE_SIZE) * PAGE_SIZE;
    proof {
        let q = (x + PAGE_SIZE - 1) / (PAGE_SIZE as int);
        assert(q * 4096 == page_round_up_spec(x));
        assert(x <= q * 4096 < x + PAGE_SIZE) by (nonlinear_arith)
            requires
                q == (x + 4095) / 4096,
                x + 4095 <= u64::MAX,
        {
        }
        assert((q * 4096) % 4096 == 0) by (nonlinear_arith);
    }
    r
}

/// The offset of an address within its page.
pub fn page_offset(x: u64) -> (r: u64)
    ensures
        r == x % PAGE_SIZE,
{
    x % PAGE_SIZE
}

/// The guest register file, as read and written through the kernel's
/// debugging interface.
#[derive(Debug, Clone, Copy, PartialEq, Eq, Structural)]
pub struct UserRegs {
    pub r15: u64,
    pub r14: u64,
    pub r13: u64,
    pub r12: u64,
    pub bp: u64,
    pub bx: u64,
    pub r11: u64,
    pub r10: u64,
    pub r9: u64,
    pub r8: u64,
    pub ax: u64,
    pub cx: u64,
    pub dx: u64,
    pub si: u64,
    pub di: u64,
    pub orig_ax: u64,
    pub ip: u64,
    pub cs: u64,
    pub flags: u64,
    pub sp: u64,
    pub ss: u64,
    pub fs_base: u64,
    pub gs_base: u64,
    pub ds: u64,
    pub es: u64,
    pub fs: u64,
    pub gs: u64,
}

impl UserRegs {
    /// The all-zero register file.
    pub fn zeroed() -> (r: UserRegs)
        ensures
            r == UserRegs::zeroed_spec(),
    {
        UserRegs {
            r15: 0, r14: 0, r13: 0, r12: 0, bp: 0, bx: 0, r11: 0, r10: 0, r9: 0, r8: 0,
            ax: 0, cx: 0, dx: 0, si: 0, di: 0, orig_ax: 0, ip: 0, cs: 0, flags: 0, sp: 0,
            ss: 0, fs_base: 0, gs_base: 0, ds: 0, es: 0, fs: 0, gs: 0,
        }
    }

    /// Specification of `zeroed`.
    pub open spec fn zeroed_spec() -> UserRegs {
        UserRegs {
            r15: 0, r14: 0, r13: 0, r12: 0, bp: 0, bx: 0, r11: 0, r10: 0, r9: 0, r8: 0,
            ax: 0, cx: 0, dx: 0, si: 0, di: 0, orig_ax: 0, ip: 0, cs: 0, flags: 0, sp: 0,
            ss: 0, fs_base: 0, gs_base: 0, ds: 0, es: 0, fs: 0, gs: 0,
        }
    }
}

/// The wire bits of a signed value, for registers.
fn reg_to_bits(x: i64) -> (r: u64)
    ensures
        r == x as u64,
{
    #[verifier::truncate] (x as u64)
}

/// The signed value of register bits.
fn reg_to_signed(x: u64) -> (r: i64)
    ensures
        r == x as i64,
{
    #[verifier::truncate] (x as i64)
}

/// The syscall a stopped guest is entering, decoded from its registers by
/// the x86-64 convention: number in `orig_ax`, arguments in `di`, `si`,
/// `dx`, `r10`, `r8`, `r9`, return value in `ax`.
pub open spec fn syscall_from_regs_spec(regs: UserRegs) -> SyscallRecord {
    SyscallRecord {
        nr: regs.orig_ax as i64,
        arg0: regs.di as i64,
        arg1: regs.si as i64,
        arg2: regs.dx as i64,
        arg3: regs.r10 as i64,
        arg4: regs.r8 as i64,
        arg5: regs.r9 as i64,
        ret: regs.ax as i64,
    }
}

/// Decode the syscall a stopped guest is entering.
pub fn syscall_from_regs(regs: &UserRegs) -> (r: SyscallRecord)
    ensures
        r == syscall_from_regs_spec(*regs),
{
    SyscallRecord {
        nr: reg_to_signed(regs.orig_ax),
        arg0: reg_to_signed(regs.di),
        arg1: reg_to_signed(regs.si),
        arg2: reg_to_signed(regs.dx),
        arg3: reg_to_signed(regs.r10),
        arg4: reg_to_signed(regs.r8),
        arg5: reg_to_signed(regs.r9),
        ret: reg_to_signed(regs.ax),
    }
}

/// Set the syscall number for a call about to be entered (`ax`).
pub fn nr_to_regs(nr: i64, regs: &mut UserRegs)
    ensures
        *final(regs) == (UserRegs { ax: nr as u64, ..*old(regs) }),
{
    regs.ax = reg_to_bits(nr);
}

/// Rewrite the number of the trapped syscall itself (`orig_ax`).
pub fn orig_nr_to_regs(nr: i64, regs: &mut UserRegs)
    ensures
        *final(regs) == (UserRegs { orig_ax: nr as u64, ..*old(regs) }),
{
    regs.orig_ax = reg_to_bits(nr);
}

/// Write the six syscall arguments into the argument registers.
pub fn args_to_regs(args: &[i64; 6], regs: &mut UserRegs)
    ensures
        *final(regs) == (UserRegs {
            di: args[0] as u64,
            si: args[1] as u64,
            dx: args[2] as u64,
            r10: args[3] as u64,
            r8: args[4] as u64,
            r9: args[5] as u64,
            ..*old(regs)
        }),
{
    regs.di = reg_to_bits(args[0]);
    regs.si = reg_to_bits(args[1]);
    regs.dx = reg_to_bits(args[2]);
    regs.r10 = reg_to_bits(args[3]);
    regs.r8 = reg_to_bits(args[4]);
    regs.r9 = reg_to_bits(args[5]);
}

/// Write a syscall return value into the return register.
pub fn ret_to_regs(ret: i64, regs: &mut UserRegs)
    ensures
        *final(regs) == (UserRegs { ax: ret as u64, ..*old(regs) }),
{
    regs.ax = reg_to_bits(ret);
}

/// Read the return value of a completed syscall.
pub fn ret_from_regs(regs: &UserRegs) -> (r: i64)
    ensures
        r == regs.ax as i64,
{
    reg_to_signed(regs.ax)
}

} // verus!
