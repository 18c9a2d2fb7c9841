//! The remote-syscall trampoline, as register-level bookkeeping: prepare a
//! stopped guest's registers to run a chosen syscall, collect its result
//! on the exit stop, re-enter the kernel through a syscall instruction in
//! the vdso with a recognizable sentinel call, and restore the original
//! register file exactly. The caller performs the actual kernel debugging
//! operations and feeds every observed register file back in.

use vstd::prelude::*;

use crate::abi::{
    args_to_regs, nr_to_regs, orig_nr_to_regs, syscall_from_regs, syscall_from_regs_spec,
    UserRegs, NR_OPEN,
};
use crate::errors::{EEXIST, EIO};
use crate::protocol::{Errno, VPtr};

verus! {

/// The syscall number of the sentinel call injected to resynchronize.
pub const RESYNC_NR: i64 = NR_OPEN as i64;

/// The argument every sentinel call carries in all six slots.
pub const RESYNC_ARG: i64 = -573785379;

/// A contiguous region of guest address space.
#[derive(Debug, Clone, Copy, PartialEq, Eq, Structural)]
pub struct MemArea {
    pub start: u64,
    pub end: u64,
}

impl MemArea {
    /// Whether two regions share any address.
    pub open spec fn overlaps_spec(self, other: MemArea) -> bool {
        self.start < other.end && other.start < self.end
    }

    /// Whether two regions share any address.
    pub fn overlaps(&self, other: &MemArea) -> (r: bool)
        ensures
            r == self.overlaps_spec(*other),
    {
        self.start < other.end && other.start < self.end
    }
}

/// The name a mapping carries in the guest's address-space listing.
#[derive(Debug, Clone, Copy, PartialEq, Eq, Structural)]
pub enum AreaName {
    VDso,
    VVar,
    VSyscall,
    Other,
}

/// One entry of the guest's address-space listing.
#[derive(Debug, Clone, Copy, PartialEq, Eq, Structural)]
pub struct MapEntry {
    pub area: MemArea,
    pub name: AreaName,
    pub read: bool,
    pub write: bool,
    pub execute: bool,
    pub mayshare: bool,
    pub dev_major: u32,
    pub dev_minor: u32,
}

/// The kernel-provided mappings of a guest, and the address of a syscall
/// instruction found inside the vdso.
#[derive(Debug, Clone, Copy, PartialEq, Eq, Structural)]
pub struct KernelMemAreas {
    pub vdso: MemArea,
    pub vvar: MemArea,
    pub vsyscall: Option<MemArea>,
    pub vdso_syscall: VPtr,
}

impl KernelMemAreas {
    /// Whether `area` belongs to ordinary userspace: it overlaps none of
    /// the kernel-provided mappings.
    pub open spec fn is_userspace_area_spec(self, area: MemArea) -> bool {
        &&& !area.overlaps_spec(self.vdso)
        &&& !area.overlaps_spec(self.vvar)
        &&& match self.vsyscall {
            Some(v) => !area.overlaps_spec(v),
            None => true,
        }
    }

    /// Whether `area` belongs to ordinary userspace.
    pub fn is_userspace_area(&self, area: &MemArea) -> (r: bool)
        ensures
            r == self.is_userspace_area_spec(*area),
    {
        if area.overlaps(&self.vdso) {
            return false;
        }
        if area.overlaps(&self.vvar) {
            return false;
        }
        match &self.vsyscall {
            Some(v) => {
                if area.overlaps(v) {
                    return false;
                }
            },
            None => {},
        }
        true
    }
}

/// Whether a listing entry is an acceptable vdso mapping.
pub open spec fn vdso_entry_ok(e: MapEntry) -> bool {
    e.read && !e.write && e.execute && !e.mayshare && e.dev_major == 0 && e.dev_minor == 0
}

/// Whether a listing entry is an acceptable vvar mapping.
pub open spec fn vvar_entry_ok(e: MapEntry) -> bool {
    e.read && !e.write && !e.execute && !e.mayshare && e.dev_major == 0 && e.dev_minor == 0
}

/// Whether a listing entry is an acceptable vsyscall mapping.
pub open spec fn vsyscall_entry_ok(e: MapEntry) -> bool {
    !e.write && e.execute && !e.mayshare && e.dev_major == 0 && e.dev_minor == 0
}

/// Whether an address-space listing is classifiable: exactly one vdso
/// entry and exactly one vvar entry, at most one vsyscall entry, each
/// with the shape the kernel gives it.
pub open spec fn listing_classifiable(maps: Seq<MapEntry>) -> bool {
    &&& exists|i: int| 0 <= i < maps.len() && (#[trigger] maps[i]).name is VDso
    &&& exists|i: int| 0 <= i < maps.len() && (#[trigger] maps[i]).name is VVar
    &&& forall|i: int, j: int|
        0 <= i < maps.len() && 0 <= j < maps.len() && (#[trigger] maps[i]).name is VDso && (
        #[trigger] maps[j]).name is VDso ==> i == j
    &&& forall|i: int, j: int|
        0 <= i < maps.len() && 0 <= j < maps.len() && (#[trigger] maps[i]).name is VVar && (
        #[trigger] maps[j]).name is VVar ==> i == j
    &&& forall|i: int, j: int|
        0 <= i < maps.len() && 0 <= j < maps.len() && (#[trigger] maps[i]).name is VSyscall
            && (#[trigger] maps[j]).name is VSyscall ==> i == j
    &&& forall|i: int|
        0 <= i < maps.len() && (#[trigger] maps[i]).name is VDso ==> vdso_entry_ok(maps[i])
    &&& forall|i: int|
        0 <= i < maps.len() && (#[trigger] maps[i]).name is VVar ==> vvar_entry_ok(maps[i])
    &&& forall|i: int|
        0 <= i < maps.len() && (#[trigger] maps[i]).name is VSyscall ==> vsyscall_entry_ok(
            maps[i],
        )
}

/// Classify the guest's address-space listing: find exactly one vdso and
/// one vvar (and at most one vsyscall), each with the shape the kernel
/// gives them. `vdso_syscall` is the address of a syscall instruction the
/// caller located inside the vdso. Succeeds on exactly the classifiable
/// listings, with every field pinned to its listing entry.
pub fn collect_kernel_areas(maps: &Vec<MapEntry>, vdso_syscall: VPtr)
    -> (r: Option<KernelMemAreas>)
    ensures
        match r {
            Some(k) => {
                &&& k.vdso_syscall == vdso_syscall
                &&& (exists|i: int|
                    0 <= i < maps@.len() && maps@[i].name is VDso && #[trigger] maps@[i].area
                        == k.vdso)
                &&& (exists|i: int|
                    0 <= i < maps@.len() && maps@[i].name is VVar && #[trigger] maps@[i].area
                        == k.vvar)
                &&& match k.vsyscall {
                    Some(a) => exists|i: int|
                        0 <= i < maps@.len() && maps@[i].name is VSyscall
                            && #[trigger] maps@[i].area == a,
                    None => forall|i: int|
                        0 <= i < maps@.len() ==> !((#[trigger] maps@[i]).name is VSyscall),
                }
                &&& forall|i: int|
                    0 <= i < maps@.len() && #[trigger] maps@[i].name is VDso ==> vdso_entry_ok(
                        maps@[i],
                    )
                &&& forall|i: int|
                    0 <= i < maps@.len() && #[trigger] maps@[i].name is VVar ==> vvar_entry_ok(
                        maps@[i],
                    )
                &&& forall|i: int|
                    0 <= i < maps@.len() && #[trigger] maps@[i].name is VSyscall
                        ==> vsyscall_entry_ok(maps@[i])
            },
            None => !listing_classifiable(maps@),
        },
        listing_classifiable(maps@) ==> r is Some,
{
    let mut vdso: Option<MemArea> = None;
    let mut vvar: Option<MemArea> = None;
    let mut vsyscall: Option<MemArea> = None;
    let n = maps.len();
    let mut i: usize = 0;
    while i < n
        invariant
            0 <= i <= n,
            n == maps@.len(),
            match vdso {
                Some(a) => exists|j: int|
                    0 <= j < i && maps@[j].name is VDso && #[trigger] maps@[j].area == a,
                None => forall|j: int| 0 <= j < i ==> !((#[trigger] maps@[j]).name is VDso),
            },
            match vvar {
                Some(a) => exists|j: int|
                    0 <= j < i && maps@[j].name is VVar && #[trigger] maps@[j].area == a,
                None => forall|j: int| 0 <= j < i ==> !((#[trigger] maps@[j]).name is VVar),
            },
            match vsyscall {
                Some(a) => exists|j: int|
                    0 <= j < i && maps@[j].name is VSyscall && #[trigger] maps@[j].area == a,
                None => forall|j: int| 0 <= j < i ==> !((#[trigger] maps@[j]).name is VSyscall),
            },
            forall|j: int| 0 <= j < i && #[trigger] maps@[j].name is VDso ==> vdso_entry_ok(
                maps@[j],
            ),
            forall|j: int| 0 <= j < i && #[trigger] maps@[j].name is VVar ==> vvar_entry_ok(
                maps@[j],
            ),
            forall|j: int| 0 <= j < i && #[trigger] maps@[j].name is VSyscall
                ==> vsyscall_entry_ok(maps@[j]),
        decreases n - i,
    {
        let e = &maps[i];
        match e.name {
            AreaName::VDso => {
                if !(e.read && !e.write && e.execute && !e.mayshare && e.dev_major == 0
                    && e.dev_minor == 0) {
                    proof {
                        assert(!vdso_entry_ok(maps@[i as int]));
                    }
                    return None;
                }
                if vdso.is_some() {
                    proof {
                        let j = choose|j: int|
                            0 <= j < i && maps@[j].name is VDso && maps@[j].area
                                == vdso->Some_0;
                        assert(maps@[j].name is VDso && maps@[i as int].name is VDso && j != i);
                    }
                    return None;
                }
                vdso = Some(e.area);
            },
            AreaName::VVar => {
                if !(e.read && !e.write && !e.execute && !e.mayshare && e.dev_major == 0
                    && e.dev_minor == 0) {
                    proof {
                        assert(!vvar_entry_ok(maps@[i as int]));
                    }
                    return None;
                }
                if vvar.is_some() {
                    proof {
                        let j = choose|j: int|
                            0 <= j < i && maps@[j].name is VVar && maps@[j].area
                                == vvar->Some_0;
                        assert(maps@[j].name is VVar && maps@[i as int].name is VVar && j != i);
                    }
                    return None;
                }
                vvar = Some(e.area);
            },
            AreaName::VSyscall => {
                if !(!e.write && e.execute && !e.mayshare && e.dev_major == 0 && e.dev_minor
                    == 0) {
                    proof {
                        assert(!vsyscall_entry_ok(maps@[i as int]));
                    }
                    return None;
                }
                if vsyscall.is_some() {
                    proof {
                        let j = choose|j: int|
                            0 <= j < i && maps@[j].name is VSyscall && maps@[j].area
                                == vsyscall->Some_0;
                        assert(maps@[j].name is VSyscall && maps@[i as int].name is VSyscall
                            && j != i);
                    }
                    return None;
                }
                vsyscall = Some(e.area);
            },
            AreaName::Other => {},
        }
        i = i + 1;
    }
    match (vdso, vvar) {
        (Some(vd), Some(vv)) => Some(
            KernelMemAreas { vdso: vd, vvar: vv, vsyscall, vdso_syscall },
        ),
        _ => None,
    }
}

/// The first userspace region of a listing, if any: the next region an
/// address-space teardown should unmap.
pub fn pick_userspace_area(kernel: &KernelMemAreas, maps: &Vec<MapEntry>)
    -> (r: Option<MemArea>)
    ensures
        match r {
            Some(a) => exists|i: int|
                0 <= i < maps@.len() && #[trigger] maps@[i].area == a
                    && kernel.is_userspace_area_spec(a),
            None => forall|i: int|
                0 <= i < maps@.len() ==> !kernel.is_userspace_area_spec(
                    #[trigger] maps@[i].area,
                ),
        },
{
    let n = maps.len();
    let mut i: usize = 0;
    while i < n
        invariant
            0 <= i <= n,
            n == maps@.len(),
            forall|j: int|
                0 <= j < i ==> !kernel.is_userspace_area_spec(#[trigger] maps@[j].area),
        decreases n - i,
    {
        if kernel.is_userspace_area(&maps[i].area) {
            return Some(maps[i].area);
        }
        i = i + 1;
    }
    None
}

/// The registers to hand a stopped guest so it runs `nr(args)` in its own
/// address space: the snapshot with the trapped call's number and
/// arguments overwritten.
pub open spec fn call_regs_spec(saved: UserRegs, nr: i64, args: [i64; 6]) -> UserRegs {
    UserRegs {
        orig_ax: nr as u64,
        di: args[0] as u64,
        si: args[1] as u64,
        dx: args[2] as u64,
        r10: args[3] as u64,
        r8: args[4] as u64,
        r9: args[5] as u64,
        ..saved
    }
}

/// Prepare the register file for an injected syscall.
pub fn prepare_call_regs(saved: &UserRegs, nr: i64, args: &[i64; 6]) -> (r: UserRegs)
    ensures
        r == call_regs_spec(*saved, nr, *args),
{
    let mut regs = *saved;
    orig_nr_to_regs(nr, &mut regs);
    args_to_regs(args, &mut regs);
    regs
}

/// The registers for the resynchronizing trip through the vdso: the
/// instruction pointer on a syscall instruction, an empty stack, and the
/// sentinel number and arguments in place.
pub open spec fn resync_regs_spec(exit_regs: UserRegs, vdso_syscall: VPtr) -> UserRegs {
    UserRegs {
        ip: vdso_syscall.0,
        sp: 0,
        ax: RESYNC_NR as u64,
        di: RESYNC_ARG as u64,
        si: RESYNC_ARG as u64,
        dx: RESYNC_ARG as u64,
        r10: RESYNC_ARG as u64,
        r8: RESYNC_ARG as u64,
        r9: RESYNC_ARG as u64,
        ..exit_regs
    }
}

/// Prepare the register file for the resynchronizing single step.
pub fn prepare_resync_regs(exit_regs: &UserRegs, vdso_syscall: VPtr) -> (r: UserRegs)
    ensures
        r == resync_regs_spec(*exit_regs, vdso_syscall),
{
    let mut regs = *exit_regs;
    regs.ip = vdso_syscall.0;
    regs.sp = 0;
    nr_to_regs(RESYNC_NR, &mut regs);
    let args: [i64; 6] = [RESYNC_ARG, RESYNC_ARG, RESYNC_ARG, RESYNC_ARG, RESYNC_ARG,
        RESYNC_ARG];
    args_to_regs(&args, &mut regs);
    regs
}

/// Whether a seccomp stop is the trampoline's own sentinel call, to be
/// swallowed.
pub fn is_resync_stop(regs: &UserRegs) -> (r: bool)
    ensures
        r == ({
            let call = syscall_from_regs_spec(*regs);
            call.nr == RESYNC_NR && call.arg0 == RESYNC_ARG && call.arg1 == RESYNC_ARG
                && call.arg2 == RESYNC_ARG && call.arg3 == RESYNC_ARG && call.arg4 == RESYNC_ARG
                && call.arg5 == RESYNC_ARG
        }),
{
    let call = syscall_from_regs(regs);
    call.nr == RESYNC_NR && call.arg0 == RESYNC_ARG && call.arg1 == RESYNC_ARG && call.arg2
        == RESYNC_ARG && call.arg3 == RESYNC_ARG && call.arg4 == RESYNC_ARG && call.arg5
        == RESYNC_ARG
}

/// The register file to restore once the sentinel stop was swallowed:
/// exactly the pre-call snapshot.
pub fn restore_regs(saved: &UserRegs) -> (r: UserRegs)
    ensures
        r == *saved,
{
    *saved
}

/// After a remote syscall round trip the guest's register file is the
/// pre-call snapshot exactly: the injected call touches only the number
/// and argument registers, the resynchronizing step carries the sentinel
/// number and arguments through the vdso with an empty stack, and the
/// final restore hands back `saved` unchanged (see `restore_regs`).
pub proof fn lemma_trampoline_restores_registers(
    saved: UserRegs,
    nr: i64,
    args: [i64; 6],
    exit_regs: UserRegs,
    vdso_syscall: VPtr,
)
    ensures
        ({
            let entered = call_regs_spec(saved, nr, args);
            let resync = resync_regs_spec(exit_regs, vdso_syscall);
            &&& entered.ip == saved.ip && entered.sp == saved.sp && entered.ax == saved.ax
            &&& entered.cs == saved.cs && entered.ss == saved.ss && entered.flags == saved.flags
            &&& resync.ax == RESYNC_NR as u64
            &&& resync.di == RESYNC_ARG as u64 && resync.si == RESYNC_ARG as u64
            &&& resync.dx == RESYNC_ARG as u64 && resync.r10 == RESYNC_ARG as u64
            &&& resync.r8 == RESYNC_ARG as u64 && resync.r9 == RESYNC_ARG as u64
            &&& resync.ip == vdso_syscall.0 && resync.sp == 0
        }),
{
}

/// Classify a raw mmap return value.
pub fn mmap_result(ret: i64) -> (r: Result<VPtr, Errno>)
    ensures
        ret < 0 ==> r == Result::<VPtr, Errno>::Err(Errno(ret as i32)),
        ret >= 0 ==> r == Result::<VPtr, Errno>::Ok(VPtr(ret as u64)),
{
    if ret < 0 {
        Err(Errno(err_i32(ret)))
    } else {
        Ok(VPtr(nonneg_u64(ret)))
    }
}

/// Classify a raw munmap return value.
pub fn munmap_result(ret: i64) -> (r: Result<(), Errno>)
    ensures
        ret == 0 ==> r == Result::<(), Errno>::Ok(()),
        ret != 0 ==> r == Result::<(), Errno>::Err(Errno(ret as i32)),
{
    if ret == 0 {
        Ok(())
    } else {
        Err(Errno(err_i32(ret)))
    }
}

/// Classify a raw mremap return value against the address it must keep.
pub fn mremap_result(ret: i64, addr: VPtr) -> (r: Result<(), Errno>)
    ensures
        ret as u64 == addr.0 ==> r == Result::<(), Errno>::Ok(()),
        ret as u64 != addr.0 ==> r == Result::<(), Errno>::Err(Errno(ret as i32)),
{
    if nonneg_u64(ret) == addr.0 {
        Ok(())
    } else {
        Err(Errno(err_i32(ret)))
    }
}

/// Classify a raw byte-count return value (pread, pwrite, getrandom).
pub fn size_result(ret: i64) -> (r: Result<u64, Errno>)
    ensures
        ret >= 0 ==> r == Result::<u64, Errno>::Ok(ret as u64),
        ret < 0 ==> r == Result::<u64, Errno>::Err(Errno(ret as i32)),
{
    if ret >= 0 {
        Ok(nonneg_u64(ret))
    } else {
        Err(Errno(err_i32(ret)))
    }
}

/// Demand a full-length transfer: a short one is an I/O error.
pub fn exact_result(res: Result<u64, Errno>, len: u64) -> (r: Result<(), Errno>)
    ensures
        res == Result::<u64, Errno>::Ok(len) ==> r == Result::<(), Errno>::Ok(()),
        (res is Ok && res->Ok_0 != len) ==> r == Result::<(), Errno>::Err(Errno((0 - EIO) as i32)),
        res is Err ==> r == Result::<(), Errno>::Err(res->Err_0),
{
    match res {
        Ok(actual) => {
            if actual == len {
                Ok(())
            } else {
                Err(Errno(0 - EIO))
            }
        },
        Err(e) => Err(e),
    }
}

/// What an anonymous no-replace mapping must do next, given where the
/// kernel actually put the mapping.
#[derive(Debug, Clone, Copy, PartialEq, Eq, Structural)]
pub enum NoreplaceOutcome {
    /// The mapping landed where demanded.
    Done,
    /// The kernel ignored the no-replace flag and moved the mapping: it
    /// must be unmapped again, and the caller reports that the range was
    /// taken.
    RollbackAt(VPtr),
    /// The mapping failed outright.
    Failed(Errno),
}

/// Decide the follow-up of an anonymous no-replace mapping.
pub fn mmap_noreplace_outcome(requested: VPtr, res: Result<VPtr, Errno>)
    -> (r: NoreplaceOutcome)
    ensures
        res == Result::<VPtr, Errno>::Ok(requested) ==> r == NoreplaceOutcome::Done,
        (res is Ok && res->Ok_0 != requested) ==> r == NoreplaceOutcome::RollbackAt(
            res->Ok_0,
        ),
        res is Err ==> r == NoreplaceOutcome::Failed(res->Err_0),
{
    match res {
        Ok(got) => {
            if got.0 == requested.0 {
                NoreplaceOutcome::Done
            } else {
                NoreplaceOutcome::RollbackAt(got)
            }
        },
        Err(e) => NoreplaceOutcome::Failed(e),
    }
}

/// The error a rolled-back no-replace mapping reports.
pub fn noreplace_error() -> (r: Errno)
    ensures
        r == Errno((0 - EEXIST) as i32),
{
    Errno(0 - EEXIST)
}

/// The signed error carried by a raw return value.
fn err_i32(ret: i64) -> (r: i32)
    ensures
        r == ret as i32,
{
    #[verifier::truncate] (ret as i32)
}

/// The unsigned address carried by a raw return value.
fn nonneg_u64(ret: i64) -> (r: u64)
    ensures
        r == ret as u64,
{
    #[verifier::truncate] (ret as u64)
}

} // verus!
