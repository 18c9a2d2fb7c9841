//! The seccomp policy compiler: builds the two kernel syscall-filter
//! programs (one for the tracer itself, one installed in guests before
//! handoff) from declarative rule lists, with a verified evaluator showing
//! what each program decides for every syscall number. The programs
//! inspect only the syscall number.

use vstd::prelude::*;

use crate::abi::{
    NR_ARCH_PRCTL, NR_BRK, NR_CLOSE, NR_COPY_FILE_RANGE, NR_EXECVE, NR_EXIT,
    NR_EXIT_GROUP, NR_FCNTL, NR_FORK, NR_GETPID, NR_KILL, NR_PRCTL, NR_PREAD64, NR_PTRACE,
    NR_PWRITE64, NR_READ, NR_READV, NR_RECVMSG, NR_RT_SIGRETURN, NR_SENDFILE, NR_SENDMSG,
    NR_WAITID, NR_WRITE, NR_WRITEV, SECCOMP_RET_ALLOW, SECCOMP_RET_KILL_PROCESS,
    SECCOMP_RET_TRACE,
};

verus! {

// Classic BPF opcodes, as the kernel's filter machine defines them.
pub const BPF_LD_W_ABS: u16 = 0x20;
pub const BPF_JMP_JEQ_K: u16 = 0x15;
pub const BPF_JMP_JA: u16 = 0x05;
pub const BPF_RET_K: u16 = 0x06;

/// One filter instruction.
#[derive(Debug, Clone, Copy, PartialEq, Eq, Structural)]
pub struct SockFilter {
    pub code: u16,
    pub jt: u8,
    pub jf: u8,
    pub k: u32,
}

/// A load of the syscall number into the accumulator.
pub open spec fn inst_load_nr() -> SockFilter {
    SockFilter { code: BPF_LD_W_ABS, jt: 0, jf: 0, k: 0 }
}

/// An unconditional return of `k`.
pub open spec fn inst_ret(k: u32) -> SockFilter {
    SockFilter { code: BPF_RET_K, jt: 0, jf: 0, k }
}

/// What the kernel's filter machine computes on a program, starting at
/// `pc` with accumulator `acc`, for a trap on syscall number `nr`: the
/// returned action, or `None` when execution falls off the program.
pub open spec fn clamp_pc(len: nat, t: nat) -> nat {
    if t <= len {
        t
    } else {
        len
    }
}

pub open spec fn bpf_eval(prog: Seq<SockFilter>, pc: nat, acc: u32, nr: u32) -> Option<u32>
    decreases prog.len() - pc,
{
    if pc >= prog.len() {
        None
    } else {
        let i = prog[pc as int];
        if i.code == BPF_RET_K {
            Some(i.k)
        } else if i.code == BPF_LD_W_ABS && i.k == 0 {
            bpf_eval(prog, pc + 1, nr, nr)
        } else if i.code == BPF_JMP_JEQ_K {
            if acc == i.k {
                bpf_eval(prog, clamp_pc(prog.len(), pc + 1 + i.jt as nat), acc, nr)
            } else {
                bpf_eval(prog, clamp_pc(prog.len(), pc + 1 + i.jf as nat), acc, nr)
            }
        } else if i.code == BPF_JMP_JA {
            bpf_eval(prog, clamp_pc(prog.len(), pc + 1 + i.k as nat), acc, nr)
        } else {
            None
        }
    }
}

/// The instruction block `if_any_eq` emits: one equality test per value,
/// each jumping to a final return of `ret_k` on a match; a miss on the
/// last test skips the return.
pub open spec fn cmp_block(vals: Seq<u32>, ret_k: u32) -> Seq<SockFilter> {
    Seq::new(
        vals.len(),
        |i: int|
            SockFilter {
                code: BPF_JMP_JEQ_K,
                jt: (vals.len() - 1 - i) as u8,
                jf: if i == vals.len() - 1 {
                    1
                } else {
                    0
                },
                k: vals[i],
            },
    ) + seq![inst_ret(ret_k)]
}

/// Running a comparison block returns its action exactly on the values it
/// names, and otherwise continues right after the block.
pub proof fn lemma_cmp_block_eval(
    prefix: Seq<SockFilter>,
    vals: Seq<u32>,
    ret_k: u32,
    rest: Seq<SockFilter>,
    acc: u32,
    nr: u32,
)
    requires
        1 <= vals.len() <= 255,
    ensures
        vals.contains(acc) ==> bpf_eval(prefix + cmp_block(vals, ret_k) + rest, prefix.len(), acc,
            nr) == Some(ret_k),
        !vals.contains(acc) ==> bpf_eval(prefix + cmp_block(vals, ret_k) + rest, prefix.len(),
            acc, nr) == bpf_eval(prefix + cmp_block(vals, ret_k) + rest, prefix.len()
            + vals.len() + 1, acc, nr),
    decreases vals.len(),
{
    let prog = prefix + cmp_block(vals, ret_k) + rest;
    let n = vals.len();
    let pc = prefix.len();
    let i0 = prog[pc as int];
    assert(i0 == cmp_block(vals, ret_k)[0]);
    assert(i0.code == BPF_JMP_JEQ_K && i0.k == vals[0]);
    if acc == vals[0] {
        assert(vals[0] == acc);
        assert(vals.contains(acc));
        let tpc = pc + 1 + i0.jt as nat;
        assert(i0.jt == n - 1);
        assert(tpc == prefix.len() + n);
        assert(tpc <= prog.len());
        assert(clamp_pc(prog.len(), tpc) == tpc);
        assert(prog[tpc as int] == cmp_block(vals, ret_k)[n as int]);
        assert(prog[tpc as int] == inst_ret(ret_k));
        assert(bpf_eval(prog, tpc, acc, nr) == Some(ret_k));
        assert(bpf_eval(prog, pc, acc, nr) == bpf_eval(prog, tpc, acc, nr));
    } else if n == 1 {
        assert(!vals.contains(acc)) by {
            assert forall|j: int| 0 <= j < vals.len() implies vals[j] != acc by {
                assert(j == 0);
            }
        }
        assert(i0.jf == 1);
        assert(pc + 2 <= prog.len());
        assert(clamp_pc(prog.len(), pc + 2) == pc + 2);
        assert(bpf_eval(prog, pc, acc, nr) == bpf_eval(prog, pc + 2, acc, nr));
        assert(pc + 2 == prefix.len() + vals.len() + 1);
    } else {
        let prefix2 = prefix + seq![prog[pc as int]];
        assert(cmp_block(vals, ret_k).skip(1) =~= cmp_block(vals.skip(1), ret_k)) by {
            assert forall|j: int| 0 <= j < cmp_block(vals, ret_k).skip(1).len() implies
                cmp_block(vals, ret_k).skip(1)[j] == cmp_block(vals.skip(1), ret_k)[j] by {
                if j < n - 1 {
                    assert(cmp_block(vals, ret_k).skip(1)[j] == cmp_block(vals, ret_k)[j + 1]);
                    assert(vals.skip(1)[j] == vals[j + 1]);
                }
            }
        }
        assert(prefix2 + cmp_block(vals.skip(1), ret_k) + rest =~= prog);
        lemma_cmp_block_eval(prefix2, vals.skip(1), ret_k, rest, acc, nr);
        assert(vals.contains(acc) <==> vals.skip(1).contains(acc)) by {
            if vals.contains(acc) {
                let j = choose|j: int| 0 <= j < n && vals[j] == acc;
                assert(j != 0);
                assert(vals.skip(1)[j - 1] == acc);
            }
            if vals.skip(1).contains(acc) {
                let j = choose|j: int| 0 <= j < n - 1 && vals.skip(1)[j] == acc;
                assert(vals[j + 1] == acc);
            }
        }
        assert(i0.jf == 0);
        assert(pc + 1 <= prog.len());
        assert(clamp_pc(prog.len(), pc + 1) == pc + 1);
        assert(bpf_eval(prog, pc, acc, nr) == bpf_eval(prog, pc + 1, acc, nr));
        assert(prefix2.len() == pc + 1);
        assert(prefix2.len() + vals.skip(1).len() + 1 == prefix.len() + vals.len() + 1);
    }
}

/// A growable filter program.
#[derive(Debug)]
pub struct ProgramBuffer {
    instrs: Vec<SockFilter>,
}

impl View for ProgramBuffer {
    type V = Seq<SockFilter>;

    closed spec fn view(&self) -> Seq<SockFilter> {
        self.instrs@
    }
}

impl ProgramBuffer {
    /// An empty program.
    pub fn new() -> (r: ProgramBuffer)
        ensures
            r@ == Seq::<SockFilter>::empty(),
    {
        let r = ProgramBuffer { instrs: Vec::new() };
        proof {
            assert(r@ =~= Seq::<SockFilter>::empty());
        }
        r
    }

    /// Append one instruction.
    pub fn inst(&mut self, i: SockFilter)
        ensures
            final(self)@ == old(self)@.push(i),
    {
        self.instrs.push(i);
    }

    /// Append a block that returns `ret_k` when the accumulator equals
    /// any of `values`, and falls through otherwise.
    pub fn if_any_eq(&mut self, values: &[u32], ret_k: u32)
        requires
            1 <= values@.len() <= 255,
        ensures
            final(self)@ == old(self)@ + cmp_block(values@, ret_k),
    {
        let n = values.len();
        let mut i: usize = 0;
        while i < n
            invariant
                0 <= i <= n,
                1 <= n <= 255,
                n == values@.len(),
                self@ =~= old(self)@ + Seq::new(
                    i as nat,
                    |j: int|
                        SockFilter {
                            code: BPF_JMP_JEQ_K,
                            jt: (n - 1 - j) as u8,
                            jf: if j == n - 1 {
                                1
                            } else {
                                0
                            },
                            k: values@[j],
                        },
                ),
            decreases n - i,
        {
            self.instrs.push(
                SockFilter {
                    code: BPF_JMP_JEQ_K,
                    jt: (n - 1 - i) as u8,
                    jf: if i == n - 1 {
                        1
                    } else {
                        0
                    },
                    k: values[i],
                },
            );
            i = i + 1;
        }
        self.instrs.push(SockFilter { code: BPF_RET_K, jt: 0, jf: 0, k: ret_k });
        proof {
            assert(self@ =~= old(self)@ + cmp_block(values@, ret_k));
        }
    }

    /// The finished instruction list, ready to hand to the kernel.
    pub fn into_instructions(self) -> (r: Vec<SockFilter>)
        ensures
            r@ == self@,
    {
        self.instrs
    }
}

/// The syscalls every policy allows outright: I/O on existing
/// descriptors, memory management that does not touch the guest, and
/// process plumbing the tracer needs.
pub open spec fn base_allowed() -> Seq<u32> {
    seq![
        NR_READ, NR_WRITE, NR_PREAD64, NR_PWRITE64, NR_READV, NR_WRITEV, NR_SENDMSG,
        NR_RECVMSG, NR_CLOSE, NR_FCNTL, NR_EXIT_GROUP, NR_EXIT, NR_RT_SIGRETURN, NR_FORK,
        NR_BRK, NR_COPY_FILE_RANGE, NR_SENDFILE,
    ]
}

/// The extra syscalls the tracer policy allows for the tracer itself.
pub open spec fn tracer_allowed() -> Seq<u32> {
    seq![NR_ARCH_PRCTL, NR_PRCTL, NR_WAITID, NR_PTRACE, NR_GETPID, NR_EXECVE, NR_KILL]
}

/// The shared prefix of both policies: load the syscall number, then
/// allow the always-safe set.
fn base_rules_for_all_policies() -> (r: ProgramBuffer)
    ensures
        r@ == seq![inst_load_nr()] + cmp_block(base_allowed(), SECCOMP_RET_ALLOW),
{
    let mut p = ProgramBuffer::new();
    p.inst(SockFilter { code: BPF_LD_W_ABS, jt: 0, jf: 0, k: 0 });
    let values: [u32; 17] = [
        NR_READ, NR_WRITE, NR_PREAD64, NR_PWRITE64, NR_READV, NR_WRITEV, NR_SENDMSG,
        NR_RECVMSG, NR_CLOSE, NR_FCNTL, NR_EXIT_GROUP, NR_EXIT, NR_RT_SIGRETURN, NR_FORK,
        NR_BRK, NR_COPY_FILE_RANGE, NR_SENDFILE,
    ];
    proof {
        assert(values@ =~= base_allowed());
    }
    p.if_any_eq(values.as_slice(), SECCOMP_RET_ALLOW);
    proof {
        assert(p@ =~= seq![inst_load_nr()] + cmp_block(base_allowed(), SECCOMP_RET_ALLOW));
    }
    p
}

/// The tracer's own policy as an instruction list.
pub open spec fn tracer_policy() -> Seq<SockFilter> {
    seq![inst_load_nr()] + cmp_block(base_allowed(), SECCOMP_RET_ALLOW) + cmp_block(
        tracer_allowed(),
        SECCOMP_RET_ALLOW,
    ) + seq![inst_ret(SECCOMP_RET_TRACE)]
}

/// The guest policy as an instruction list.
pub open spec fn loader_policy() -> Seq<SockFilter> {
    seq![inst_load_nr()] + cmp_block(base_allowed(), SECCOMP_RET_ALLOW) + cmp_block(
        seq![NR_PTRACE],
        SECCOMP_RET_KILL_PROCESS,
    ) + seq![inst_ret(SECCOMP_RET_TRACE)]
}

/// Build the tracer policy: the always-safe set plus the calls the tracer
/// itself needs; everything else traps to a (future) tracer. The caller
/// asserts no-new-privileges and installs the program.
pub fn policy_for_tracer() -> (r: Vec<SockFilter>)
    ensures
        r@ == tracer_policy(),
{
    let mut p = base_rules_for_all_policies();
    let values: [u32; 7] = [
        NR_ARCH_PRCTL, NR_PRCTL, NR_WAITID, NR_PTRACE, NR_GETPID, NR_EXECVE, NR_KILL,
    ];
    proof {
        assert(values@ =~= tracer_allowed());
    }
    p.if_any_eq(values.as_slice(), SECCOMP_RET_ALLOW);
    p.inst(SockFilter { code: BPF_RET_K, jt: 0, jf: 0, k: SECCOMP_RET_TRACE });
    proof {
        assert(p@ =~= tracer_policy());
    }
    p.into_instructions()
}

/// Build the guest policy: the always-safe set, a hard kill for ptrace,
/// and a trap to the supervising tracer for everything else. The caller
/// asserts no-new-privileges and installs the program in the guest.
pub fn policy_for_loader() -> (r: Vec<SockFilter>)
    ensures
        r@ == loader_policy(),
{
    let mut p = base_rules_for_all_policies();
    let values: [u32; 1] = [NR_PTRACE];
    proof {
        assert(values@ =~= seq![NR_PTRACE]);
    }
    p.if_any_eq(values.as_slice(), SECCOMP_RET_KILL_PROCESS);
    p.inst(SockFilter { code: BPF_RET_K, jt: 0, jf: 0, k: SECCOMP_RET_TRACE });
    proof {
        assert(p@ =~= loader_policy());
    }
    p.into_instructions()
}

/// What the guest policy decides, for every syscall number: the
/// always-safe set runs without tracer involvement, ptrace kills the
/// process, and everything else traps to the tracer.
pub proof fn lemma_loader_policy_decides(nr: u32)
    ensures
        base_allowed().contains(nr) ==> bpf_eval(loader_policy(), 0, 0, nr) == Some(
            SECCOMP_RET_ALLOW,
        ),
        nr == NR_PTRACE ==> bpf_eval(loader_policy(), 0, 0, nr) == Some(
            SECCOMP_RET_KILL_PROCESS,
        ),
        !base_allowed().contains(nr) && nr != NR_PTRACE ==> bpf_eval(loader_policy(), 0, 0, nr)
            == Some(SECCOMP_RET_TRACE),
{
    let prog = loader_policy();
    let pre1 = seq![inst_load_nr()];
    assert(prog[0] == inst_load_nr());
    assert(bpf_eval(prog, 0, 0, nr) == bpf_eval(prog, 1, nr, nr));
    assert(pre1 + cmp_block(base_allowed(), SECCOMP_RET_ALLOW) + (cmp_block(
        seq![NR_PTRACE],
        SECCOMP_RET_KILL_PROCESS,
    ) + seq![inst_ret(SECCOMP_RET_TRACE)]) =~= prog);
    lemma_cmp_block_eval(
        pre1,
        base_allowed(),
        SECCOMP_RET_ALLOW,
        cmp_block(seq![NR_PTRACE], SECCOMP_RET_KILL_PROCESS) + seq![
            inst_ret(SECCOMP_RET_TRACE),
        ],
        nr,
        nr,
    );
    if !base_allowed().contains(nr) {
        let pre2 = pre1 + cmp_block(base_allowed(), SECCOMP_RET_ALLOW);
        assert(pre2 + cmp_block(seq![NR_PTRACE], SECCOMP_RET_KILL_PROCESS) + seq![
            inst_ret(SECCOMP_RET_TRACE),
        ] =~= prog);
        lemma_cmp_block_eval(
            pre2,
            seq![NR_PTRACE],
            SECCOMP_RET_KILL_PROCESS,
            seq![inst_ret(SECCOMP_RET_TRACE)],
            nr,
            nr,
        );
        assert(seq![NR_PTRACE].contains(nr) <==> nr == NR_PTRACE) by {
            if seq![NR_PTRACE].contains(nr) {
                let j = choose|j: int| 0 <= j < 1 && seq![NR_PTRACE][j] == nr;
            }
            if nr == NR_PTRACE {
                assert(seq![NR_PTRACE][0] == nr);
            }
        }
        if nr != NR_PTRACE {
            let end = pre2.len() + 2;
            assert(prog[end as int] == inst_ret(SECCOMP_RET_TRACE));
        }
    }
}

/// What the tracer policy decides, for every syscall number.
pub proof fn lemma_tracer_policy_decides(nr: u32)
    ensures
        base_allowed().contains(nr) || tracer_allowed().contains(nr) ==> bpf_eval(
            tracer_policy(),
            0,
            0,
            nr,
        ) == Some(SECCOMP_RET_ALLOW),
        !base_allowed().contains(nr) && !tracer_allowed().contains(nr) ==> bpf_eval(
            tracer_policy(),
            0,
            0,
            nr,
        ) == Some(SECCOMP_RET_TRACE),
{
    let prog = tracer_policy();
    let pre1 = seq![inst_load_nr()];
    assert(prog[0] == inst_load_nr());
    assert(bpf_eval(prog, 0, 0, nr) == bpf_eval(prog, 1, nr, nr));
    lemma_cmp_block_eval(
        pre1,
        base_allowed(),
        SECCOMP_RET_ALLOW,
        cmp_block(tracer_allowed(), SECCOMP_RET_ALLOW) + seq![inst_ret(SECCOMP_RET_TRACE)],
        nr,
        nr,
    );
    assert(pre1 + cmp_block(base_allowed(), SECCOMP_RET_ALLOW) + (cmp_block(
        tracer_allowed(),
        SECCOMP_RET_ALLOW,
    ) + seq![inst_ret(SECCOMP_RET_TRACE)]) =~= prog);
    if !base_allowed().contains(nr) {
        let pre2 = pre1 + cmp_block(base_allowed(), SECCOMP_RET_ALLOW);
        assert(pre2 + cmp_block(tracer_allowed(), SECCOMP_RET_ALLOW) + seq![
            inst_ret(SECCOMP_RET_TRACE),
        ] =~= prog);
        lemma_cmp_block_eval(
            pre2,
            tracer_allowed(),
            SECCOMP_RET_ALLOW,
            seq![inst_ret(SECCOMP_RET_TRACE)],
            nr,
            nr,
        );
        if !tracer_allowed().contains(nr) {
            let end = pre2.len() + tracer_allowed().len() + 1;
            assert(prog[end as int] == inst_ret(SECCOMP_RET_TRACE));
        }
    }
}


/// Run a filter program on a syscall number, exactly as the kernel's
/// machine evaluates it.
pub fn run_filter(prog: &Vec<SockFilter>, nr: u32) -> (r: Option<u32>)
    ensures
        r == bpf_eval(prog@, 0, 0, nr),
{
    let n = prog.len();
    let mut pc: usize = 0;
    let mut acc: u32 = 0;
    loop
        invariant
            0 <= pc,
            n == prog@.len(),
            bpf_eval(prog@, 0, 0, nr) == bpf_eval(prog@, pc as nat, acc, nr),
        decreases n - pc,
    {
        if pc >= n {
            return None;
        }
        let i = prog[pc];
        if i.code == BPF_RET_K {
            return Some(i.k);
        } else if i.code == BPF_LD_W_ABS && i.k == 0 {
            acc = nr;
            pc = pc + 1;
        } else if i.code == BPF_JMP_JEQ_K {
            let off = if acc == i.k {
                i.jt as usize
            } else {
                i.jf as usize
            };
            let next = if off <= n - (pc + 1) {
                pc + 1 + off
            } else {
                n
            };
            proof {
                assert(clamp_pc(prog@.len(), pc as nat + 1 + off as nat) == next as nat);
            }
            pc = next;
        } else if i.code == BPF_JMP_JA {
            let off = i.k as usize;
            let next = if off <= n - (pc + 1) {
                pc + 1 + off
            } else {
                n
            };
            proof {
                assert(clamp_pc(prog@.len(), pc as nat + 1 + i.k as nat) == next as nat);
            }
            pc = next;
        } else {
            return None;
        }
    }
}

} // verus!
