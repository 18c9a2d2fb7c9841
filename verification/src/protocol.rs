//! The tracer-guest wire protocol: typed messages, their byte-exact
//! little-endian codec over the bounded IPC buffer, and the proof that
//! decoding inverts encoding.
//!
//! Every scalar is little-endian fixed-width; enum variants carry a single
//! leading tag byte; file descriptors travel out of band in the buffer's
//! descriptor queue, in the order their variants are encoded.

use vstd::prelude::*;

use crate::buffer::{BufferError, IPCBuffer, BYTES_MAX, FILES_MAX};
use crate::vfs::Stat;

verus! {

/// A process identifier assigned by the host kernel.
#[derive(Debug, Clone, Copy, PartialEq, Eq, Hash, Structural)]
pub struct SysPid(pub u32);

/// A virtual process identifier, as the guest sees it.
#[derive(Debug, Clone, Copy, PartialEq, Eq, Hash, Structural)]
pub struct VPid(pub u32);

/// A signal number.
#[derive(Debug, Clone, Copy, PartialEq, Eq, Structural)]
pub struct Signal(pub u32);

/// A pointer in the guest's address space.
#[derive(Debug, Clone, Copy, PartialEq, Eq, Structural)]
pub struct VPtr(pub u64);

/// A NUL-terminated string in the guest's address space.
#[derive(Debug, Clone, Copy, PartialEq, Eq, Structural)]
pub struct VString(pub VPtr);

/// A kernel error number, carried negated.
#[derive(Debug, Clone, Copy, PartialEq, Eq, Structural)]
pub struct Errno(pub i32);

/// A file descriptor owned by the host side.
#[derive(Debug, Clone, Copy, PartialEq, Eq, Structural)]
pub struct SysFd(pub u32);

/// A handle the tracer hands out for an opened guest process.
#[derive(Debug, Clone, Copy, PartialEq, Eq, Structural)]
pub struct ProcessHandle(pub u32);

/// File metadata as replied to a guest stat request.
#[derive(Debug, Clone, Copy, PartialEq, Eq, Structural)]
pub struct FileStat {
    pub stat: Stat,
}

/// Log severity, highest first.
#[derive(Debug, Clone, Copy, PartialEq, Eq, Structural)]
pub enum LogLevel {
    Error,
    Warn,
    Info,
    Debug,
    Trace,
}

impl LogLevel {
    /// Severity rank: lower is more severe.
    pub open spec fn rank_spec(self) -> u8 {
        match self {
            LogLevel::Error => 0,
            LogLevel::Warn => 1,
            LogLevel::Info => 2,
            LogLevel::Debug => 3,
            LogLevel::Trace => 4,
        }
    }

    /// Severity rank: lower is more severe.
    pub fn rank(&self) -> (r: u8)
        ensures
            r == self.rank_spec(),
    {
        match self {
            LogLevel::Error => 0,
            LogLevel::Warn => 1,
            LogLevel::Info => 2,
            LogLevel::Debug => 3,
            LogLevel::Trace => 4,
        }
    }
}

/// One intercepted or injected system call, as logged.
#[derive(Debug, Clone, Copy, PartialEq, Eq, Structural)]
pub struct SyscallRecord {
    pub nr: i64,
    pub arg0: i64,
    pub arg1: i64,
    pub arg2: i64,
    pub arg3: i64,
    pub arg4: i64,
    pub arg5: i64,
    pub ret: i64,
}

/// The payload of a log message.
#[derive(Debug, Clone, Copy, PartialEq, Eq, Structural)]
pub enum LogMessage {
    /// A syscall answered by the emulator.
    Emulated(SyscallRecord),
    /// A syscall executed remotely in the guest.
    Remote(SyscallRecord),
    /// A signal observed on the guest.
    Signal(u32),
}

/// Replies and commands sent from the tracer to a guest task.
#[derive(Debug, Clone, Copy, PartialEq, Eq)]
pub enum ToSand {
    OpenProcessReply(ProcessHandle),
    Reply(Result<(), Errno>),
    FileReply(Result<SysFd, Errno>),
    FileStatReply(Result<FileStat, Errno>),
    SizeReply(Result<u64, Errno>),
    Init { args: SysFd },
}

/// Requests sent from a guest task to the tracer.
#[derive(Debug, Clone, Copy, PartialEq, Eq)]
pub enum FromSand {
    OpenProcess(SysPid),
    FileOpen { dir: Option<SysFd>, path: VString, flags: i32, mode: i32 },
    FileAccess { dir: Option<SysFd>, path: VString, mode: i32 },
    FileStat { file: Option<SysFd>, path: Option<VString>, nofollow: bool },
    GetWorkingDir(VString, u64),
    ChangeWorkingDir(VString),
    Log(LogLevel, LogMessage),
    Exited(u32),
}

/// A tracer-to-guest message, addressed to one task.
#[derive(Debug, Clone, Copy, PartialEq, Eq)]
pub struct MessageToSand {
    pub task: VPid,
    pub op: ToSand,
}

/// A guest-to-tracer message, sent by one task.
#[derive(Debug, Clone, Copy, PartialEq, Eq)]
pub struct MessageFromSand {
    pub task: VPid,
    pub op: FromSand,
}

/// The little-endian bytes of a 32-bit value.
#[verifier::opaque]
pub open spec fn le32(x: u32) -> Seq<u8> {
    seq![
        (x & 0xff) as u8,
        ((x >> 8) & 0xff) as u8,
        ((x >> 16) & 0xff) as u8,
        ((x >> 24) & 0xff) as u8,
    ]
}

/// The little-endian bytes of a 64-bit value.
#[verifier::opaque]
pub open spec fn le64(x: u64) -> Seq<u8> {
    seq![
        (x & 0xff) as u8,
        ((x >> 8) & 0xff) as u8,
        ((x >> 16) & 0xff) as u8,
        ((x >> 24) & 0xff) as u8,
        ((x >> 32) & 0xff) as u8,
        ((x >> 40) & 0xff) as u8,
        ((x >> 48) & 0xff) as u8,
        ((x >> 56) & 0xff) as u8,
    ]
}

/// A 32-bit value reassembled from little-endian bytes.
pub open spec fn u32_from_le(b0: u8, b1: u8, b2: u8, b3: u8) -> u32 {
    (b0 as u32) | ((b1 as u32) << 8) | ((b2 as u32) << 16) | ((b3 as u32) << 24)
}

/// A 64-bit value reassembled from little-endian bytes.
pub open spec fn u64_from_le(
    b0: u8,
    b1: u8,
    b2: u8,
    b3: u8,
    b4: u8,
    b5: u8,
    b6: u8,
    b7: u8,
) -> u64 {
    (b0 as u64) | ((b1 as u64) << 8) | ((b2 as u64) << 16) | ((b3 as u64) << 24)
        | ((b4 as u64) << 32) | ((b5 as u64) << 40) | ((b6 as u64) << 48) | ((b7 as u64) << 56)
}

/// Reassembling the bytes of a 32-bit value gives it back.
pub proof fn lemma_u32_le_roundtrip(x: u32)
    ensures
        u32_from_le(
            (x & 0xff) as u8,
            ((x >> 8) & 0xff) as u8,
            ((x >> 16) & 0xff) as u8,
            ((x >> 24) & 0xff) as u8,
        ) == x,
{
    assert(((x & 0xff) as u8 as u32) | ((((x >> 8) & 0xff) as u8 as u32) << 8)
        | ((((x >> 16) & 0xff) as u8 as u32) << 16) | ((((x >> 24) & 0xff) as u8 as u32) << 24)
        == x) by (bit_vector);
}

/// Reassembling the bytes of a 64-bit value gives it back.
pub proof fn lemma_u64_le_roundtrip(x: u64)
    ensures
        u64_from_le(
            (x & 0xff) as u8,
            ((x >> 8) & 0xff) as u8,
            ((x >> 16) & 0xff) as u8,
            ((x >> 24) & 0xff) as u8,
            ((x >> 32) & 0xff) as u8,
            ((x >> 40) & 0xff) as u8,
            ((x >> 48) & 0xff) as u8,
            ((x >> 56) & 0xff) as u8,
        ) == x,
{
    assert(((x & 0xff) as u8 as u64) | ((((x >> 8) & 0xff) as u8 as u64) << 8)
        | ((((x >> 16) & 0xff) as u8 as u64) << 16) | ((((x >> 24) & 0xff) as u8 as u64) << 24)
        | ((((x >> 32) & 0xff) as u8 as u64) << 32) | ((((x >> 40) & 0xff) as u8 as u64) << 40)
        | ((((x >> 48) & 0xff) as u8 as u64) << 48) | ((((x >> 56) & 0xff) as u8 as u64) << 56)
        == x) by (bit_vector);
}

/// Split a 32-bit value into its little-endian bytes.
fn u32_bytes(x: u32) -> (r: (u8, u8, u8, u8))
    ensures
        seq![r.0, r.1, r.2, r.3] == le32(x),
{
    proof {
        reveal(le32);
        assert((x & 0xff) < 256 && ((x >> 8) & 0xff) < 256 && ((x >> 16) & 0xff) < 256 && ((x
            >> 24) & 0xff) < 256) by (bit_vector);
    }
    (
        (x & 0xff) as u8,
        ((x >> 8) & 0xff) as u8,
        ((x >> 16) & 0xff) as u8,
        ((x >> 24) & 0xff) as u8,
    )
}

/// Split a 64-bit value into its little-endian bytes.
fn u64_bytes(x: u64) -> (r: (u8, u8, u8, u8, u8, u8, u8, u8))
    ensures
        seq![r.0, r.1, r.2, r.3, r.4, r.5, r.6, r.7] == le64(x),
{
    proof {
        reveal(le64);
        assert((x & 0xff) < 256 && ((x >> 8) & 0xff) < 256 && ((x >> 16) & 0xff) < 256 && ((x
            >> 24) & 0xff) < 256 && ((x >> 32) & 0xff) < 256 && ((x >> 40) & 0xff) < 256 && ((x
            >> 48) & 0xff) < 256 && ((x >> 56) & 0xff) < 256) by (bit_vector);
    }
    (
        (x & 0xff) as u8,
        ((x >> 8) & 0xff) as u8,
        ((x >> 16) & 0xff) as u8,
        ((x >> 24) & 0xff) as u8,
        ((x >> 32) & 0xff) as u8,
        ((x >> 40) & 0xff) as u8,
        ((x >> 48) & 0xff) as u8,
        ((x >> 56) & 0xff) as u8,
    )
}

/// Reassemble a 32-bit value from its little-endian bytes.
fn u32_join(b0: u8, b1: u8, b2: u8, b3: u8) -> (r: u32)
    ensures
        r == u32_from_le(b0, b1, b2, b3),
{
    (b0 as u32) | ((b1 as u32) << 8) | ((b2 as u32) << 16) | ((b3 as u32) << 24)
}

/// Reassemble a 64-bit value from its little-endian bytes.
fn u64_join(b0: u8, b1: u8, b2: u8, b3: u8, b4: u8, b5: u8, b6: u8, b7: u8) -> (r: u64)
    ensures
        r == u64_from_le(b0, b1, b2, b3, b4, b5, b6, b7),
{
    (b0 as u64) | ((b1 as u64) << 8) | ((b2 as u64) << 16) | ((b3 as u64) << 24) | ((b4
        as u64) << 32) | ((b5 as u64) << 40) | ((b6 as u64) << 48) | ((b7 as u64) << 56)
}

/// An `i32` on the wire: its two's-complement bits, little-endian.
pub open spec fn i32_bits(x: i32) -> u32 {
    x as u32
}

/// The `i32` carried by wire bits.
pub open spec fn i32_of_bits(x: u32) -> i32 {
    x as i32
}

/// The cast round-trip on 32 bits is the identity.
pub proof fn lemma_i32_bits_roundtrip(x: i32)
    ensures
        i32_of_bits(i32_bits(x)) == x,
{
    assert((x as u32) as i32 == x) by (bit_vector);
}

/// An `i64` on the wire: its two's-complement bits, little-endian.
pub open spec fn i64_bits(x: i64) -> u64 {
    x as u64
}

/// The `i64` carried by wire bits.
pub open spec fn i64_of_bits(x: u64) -> i64 {
    x as i64
}

/// The cast round-trip on 64 bits is the identity.
pub proof fn lemma_i64_bits_roundtrip(x: i64)
    ensures
        i64_of_bits(i64_bits(x)) == x,
{
    assert((x as u64) as i64 == x) by (bit_vector);
}


/// Append one byte; the caller has checked the room.
fn push_u8(buf: &mut IPCBuffer, b: u8)
    requires
        old(buf).inv(),
        old(buf)@.consumed_bytes + old(buf)@.bytes.len() + 1 <= BYTES_MAX,
    ensures
        final(buf).inv(),
        final(buf)@.bytes == old(buf)@.bytes.push(b),
        final(buf)@.files == old(buf)@.files,
        final(buf)@.consumed_bytes == old(buf)@.consumed_bytes,
        final(buf)@.consumed_files == old(buf)@.consumed_files,
{
    let r = buf.push_back_byte(b);
    proof {
        assert(r is Ok);
    }
}

/// Append a 32-bit value, little-endian; the caller has checked the room.
fn push_u32(buf: &mut IPCBuffer, x: u32)
    requires
        old(buf).inv(),
        old(buf)@.consumed_bytes + old(buf)@.bytes.len() + 4 <= BYTES_MAX,
    ensures
        final(buf).inv(),
        final(buf)@.bytes == old(buf)@.bytes + le32(x),
        final(buf)@.files == old(buf)@.files,
        final(buf)@.consumed_bytes == old(buf)@.consumed_bytes,
        final(buf)@.consumed_files == old(buf)@.consumed_files,
{
    let (b0, b1, b2, b3) = u32_bytes(x);
    push_u8(buf, b0);
    push_u8(buf, b1);
    push_u8(buf, b2);
    push_u8(buf, b3);
    proof {
        assert(final(buf)@.bytes =~= old(buf)@.bytes + le32(x));
    }
}

/// Append a 64-bit value, little-endian; the caller has checked the room.
fn push_u64(buf: &mut IPCBuffer, x: u64)
    requires
        old(buf).inv(),
        old(buf)@.consumed_bytes + old(buf)@.bytes.len() + 8 <= BYTES_MAX,
    ensures
        final(buf).inv(),
        final(buf)@.bytes == old(buf)@.bytes + le64(x),
        final(buf)@.files == old(buf)@.files,
        final(buf)@.consumed_bytes == old(buf)@.consumed_bytes,
        final(buf)@.consumed_files == old(buf)@.consumed_files,
{
    let (b0, b1, b2, b3, b4, b5, b6, b7) = u64_bytes(x);
    push_u8(buf, b0);
    push_u8(buf, b1);
    push_u8(buf, b2);
    push_u8(buf, b3);
    push_u8(buf, b4);
    push_u8(buf, b5);
    push_u8(buf, b6);
    push_u8(buf, b7);
    proof {
        assert(final(buf)@.bytes =~= old(buf)@.bytes + le64(x));
    }
}

/// Append one descriptor; the caller has checked the room.
fn push_fd(buf: &mut IPCBuffer, f: u32)
    requires
        old(buf).inv(),
        old(buf)@.consumed_files + old(buf)@.files.len() + 1 <= FILES_MAX,
    ensures
        final(buf).inv(),
        final(buf)@.files == old(buf)@.files.push(f),
        final(buf)@.bytes == old(buf)@.bytes,
        final(buf)@.consumed_bytes == old(buf)@.consumed_bytes,
        final(buf)@.consumed_files == old(buf)@.consumed_files,
{
    let r = buf.push_back_file(f);
    proof {
        assert(r is Ok);
    }
}

/// Strip one byte off a byte stream.
pub open spec fn dec_u8(b: Seq<u8>) -> Result<(u8, Seq<u8>), BufferError> {
    if b.len() >= 1 {
        Ok((b[0], b.skip(1)))
    } else {
        Err(BufferError::UnexpectedEnd)
    }
}

/// Strip a little-endian 32-bit value off a byte stream.
pub open spec fn dec_u32(b: Seq<u8>) -> Result<(u32, Seq<u8>), BufferError> {
    if b.len() >= 4 {
        Ok((u32_from_le(b[0], b[1], b[2], b[3]), b.skip(4)))
    } else {
        Err(BufferError::UnexpectedEnd)
    }
}

/// Strip a little-endian 64-bit value off a byte stream.
pub open spec fn dec_u64(b: Seq<u8>) -> Result<(u64, Seq<u8>), BufferError> {
    if b.len() >= 8 {
        Ok((u64_from_le(b[0], b[1], b[2], b[3], b[4], b[5], b[6], b[7]), b.skip(8)))
    } else {
        Err(BufferError::UnexpectedEnd)
    }
}

/// Strip a boolean byte off a byte stream.
pub open spec fn dec_bool(b: Seq<u8>) -> Result<(bool, Seq<u8>), BufferError> {
    match dec_u8(b) {
        Err(e) => Err(e),
        Ok((t, b1)) => {
            if t == 0 {
                Ok((false, b1))
            } else if t == 1 {
                Ok((true, b1))
            } else {
                Err(BufferError::InvalidValue)
            }
        },
    }
}

/// Strip one descriptor off a descriptor stream.
pub open spec fn dec_fd(f: Seq<u32>) -> Result<(u32, Seq<u32>), BufferError> {
    if f.len() >= 1 {
        Ok((f[0], f.skip(1)))
    } else {
        Err(BufferError::UnexpectedEnd)
    }
}

/// Read one byte from the buffer front.
fn pop_u8(buf: &mut IPCBuffer) -> (r: Result<u8, BufferError>)
    requires
        old(buf).inv(),
    ensures
        final(buf).inv(),
        final(buf)@.files == old(buf)@.files,
        final(buf)@.consumed_files == old(buf)@.consumed_files,
        match dec_u8(old(buf)@.bytes) {
            Ok((x, rest)) => r == Result::<u8, BufferError>::Ok(x) && final(buf)@.bytes == rest,
            Err(e) => r == Result::<u8, BufferError>::Err(e) && final(buf)@ == old(buf)@,
        },
{
    buf.pop_front_byte()
}

/// Read a little-endian 32-bit value from the buffer front.
fn pop_u32(buf: &mut IPCBuffer) -> (r: Result<u32, BufferError>)
    requires
        old(buf).inv(),
    ensures
        final(buf).inv(),
        final(buf)@.files == old(buf)@.files,
        final(buf)@.consumed_files == old(buf)@.consumed_files,
        match dec_u32(old(buf)@.bytes) {
            Ok((x, rest)) => r == Result::<u32, BufferError>::Ok(x) && final(buf)@.bytes == rest,
            Err(e) => r == Result::<u32, BufferError>::Err(e) && final(buf)@ == old(buf)@,
        },
{
    if buf.unread_byte_len() < 4 {
        return Err(BufferError::UnexpectedEnd);
    }
    let b0 = match pop_u8(buf) {
        Ok(b) => b,
        Err(e) => {
            return Err(e);
        },
    };
    let b1 = match pop_u8(buf) {
        Ok(b) => b,
        Err(e) => {
            return Err(e);
        },
    };
    let b2 = match pop_u8(buf) {
        Ok(b) => b,
        Err(e) => {
            return Err(e);
        },
    };
    let b3 = match pop_u8(buf) {
        Ok(b) => b,
        Err(e) => {
            return Err(e);
        },
    };
    proof {
        let b = old(buf)@.bytes;
        assert(b.skip(1).skip(1) =~= b.skip(2));
        assert(b.skip(2).skip(1) =~= b.skip(3));
        assert(b.skip(3).skip(1) =~= b.skip(4));
        assert(b.skip(1)[0] == b[1] && b.skip(2)[0] == b[2] && b.skip(3)[0] == b[3]);
    }
    Ok(u32_join(b0, b1, b2, b3))
}

/// Read a little-endian 64-bit value from the buffer front.
fn pop_u64(buf: &mut IPCBuffer) -> (r: Result<u64, BufferError>)
    requires
        old(buf).inv(),
    ensures
        final(buf).inv(),
        final(buf)@.files == old(buf)@.files,
        final(buf)@.consumed_files == old(buf)@.consumed_files,
        match dec_u64(old(buf)@.bytes) {
            Ok((x, rest)) => r == Result::<u64, BufferError>::Ok(x) && final(buf)@.bytes == rest,
            Err(e) => r == Result::<u64, BufferError>::Err(e) && final(buf)@ == old(buf)@,
        },
{
    if buf.unread_byte_len() < 8 {
        return Err(BufferError::UnexpectedEnd);
    }
    let ghost b = buf@.bytes;
    let b0 = match pop_u8(buf) {
        Ok(x) => x,
        Err(e) => {
            return Err(e);
        },
    };
    let b1 = match pop_u8(buf) {
        Ok(x) => x,
        Err(e) => {
            return Err(e);
        },
    };
    let b2 = match pop_u8(buf) {
        Ok(x) => x,
        Err(e) => {
            return Err(e);
        },
    };
    let b3 = match pop_u8(buf) {
        Ok(x) => x,
        Err(e) => {
            return Err(e);
        },
    };
    let b4 = match pop_u8(buf) {
        Ok(x) => x,
        Err(e) => {
            return Err(e);
        },
    };
    let b5 = match pop_u8(buf) {
        Ok(x) => x,
        Err(e) => {
            return Err(e);
        },
    };
    let b6 = match pop_u8(buf) {
        Ok(x) => x,
        Err(e) => {
            return Err(e);
        },
    };
    let b7 = match pop_u8(buf) {
        Ok(x) => x,
        Err(e) => {
            return Err(e);
        },
    };
    proof {
        assert(b.skip(1).skip(1) =~= b.skip(2));
        assert(b.skip(2).skip(1) =~= b.skip(3));
        assert(b.skip(3).skip(1) =~= b.skip(4));
        assert(b.skip(4).skip(1) =~= b.skip(5));
        assert(b.skip(5).skip(1) =~= b.skip(6));
        assert(b.skip(6).skip(1) =~= b.skip(7));
        assert(b.skip(7).skip(1) =~= b.skip(8));
        assert(b.skip(1)[0] == b[1] && b.skip(2)[0] == b[2] && b.skip(3)[0] == b[3]
            && b.skip(4)[0] == b[4] && b.skip(5)[0] == b[5] && b.skip(6)[0] == b[6]
            && b.skip(7)[0] == b[7]);
    }
    Ok(u64_join(b0, b1, b2, b3, b4, b5, b6, b7))
}

/// Read a boolean byte from the buffer front.
fn pop_bool(buf: &mut IPCBuffer) -> (r: Result<bool, BufferError>)
    requires
        old(buf).inv(),
    ensures
        final(buf).inv(),
        final(buf)@.files == old(buf)@.files,
        final(buf)@.consumed_files == old(buf)@.consumed_files,
        match dec_bool(old(buf)@.bytes) {
            Ok((x, rest)) => r == Result::<bool, BufferError>::Ok(x) && final(buf)@.bytes == rest,
            Err(e) => r == Result::<bool, BufferError>::Err(e),
        },
{
    let t = match pop_u8(buf) {
        Ok(t) => t,
        Err(e) => {
            return Err(e);
        },
    };
    if t == 0 {
        Ok(false)
    } else if t == 1 {
        Ok(true)
    } else {
        Err(BufferError::InvalidValue)
    }
}

/// Read one descriptor from the buffer front.
fn pop_fd(buf: &mut IPCBuffer) -> (r: Result<u32, BufferError>)
    requires
        old(buf).inv(),
    ensures
        final(buf).inv(),
        final(buf)@.bytes == old(buf)@.bytes,
        final(buf)@.consumed_bytes == old(buf)@.consumed_bytes,
        match dec_fd(old(buf)@.files) {
            Ok((x, rest)) => r == Result::<u32, BufferError>::Ok(x) && final(buf)@.files == rest,
            Err(e) => r == Result::<u32, BufferError>::Err(e) && final(buf)@ == old(buf)@,
        },
{
    buf.pop_front_file()
}


/// A boolean on the wire.
pub open spec fn enc_bool(v: bool) -> Seq<u8> {
    seq![if v { 1u8 } else { 0u8 }]
}

/// File metadata on the wire.
#[verifier::opaque]
pub open spec fn enc_stat_bytes(s: Stat) -> Seq<u8> {
    le32(s.mode) + le64(s.uid) + le64(s.gid) + le64(s.mtime) + le64(s.nlink) + le64(s.size)
}

/// A syscall record on the wire.
#[verifier::opaque]
pub open spec fn enc_rec_bytes(r: SyscallRecord) -> Seq<u8> {
    le64(i64_bits(r.nr)) + le64(i64_bits(r.arg0)) + le64(i64_bits(r.arg1)) + le64(i64_bits(r.arg2))
        + le64(i64_bits(r.arg3)) + le64(i64_bits(r.arg4)) + le64(i64_bits(r.arg5))
        + le64(i64_bits(r.ret))
}

/// A unit result on the wire.
pub open spec fn enc_result_unit(res: Result<(), Errno>) -> Seq<u8> {
    match res {
        Ok(_) => seq![0u8],
        Err(e) => seq![1u8] + le32(i32_bits(e.0)),
    }
}

/// A descriptor result on the wire: the bytes.
pub open spec fn enc_result_fd_bytes(res: Result<SysFd, Errno>) -> Seq<u8> {
    match res {
        Ok(_) => seq![0u8],
        Err(e) => seq![1u8] + le32(i32_bits(e.0)),
    }
}

/// A descriptor result on the wire: the out-of-band descriptors.
pub open spec fn enc_result_fd_files(res: Result<SysFd, Errno>) -> Seq<u32> {
    match res {
        Ok(f) => seq![f.0],
        Err(_) => Seq::empty(),
    }
}

/// A stat result on the wire.
pub open spec fn enc_result_stat(res: Result<FileStat, Errno>) -> Seq<u8> {
    match res {
        Ok(fs) => seq![0u8] + enc_stat_bytes(fs.stat),
        Err(e) => seq![1u8] + le32(i32_bits(e.0)),
    }
}

/// A size result on the wire.
pub open spec fn enc_result_u64(res: Result<u64, Errno>) -> Seq<u8> {
    match res {
        Ok(x) => seq![0u8] + le64(x),
        Err(e) => seq![1u8] + le32(i32_bits(e.0)),
    }
}

/// An optional descriptor on the wire: the bytes.
pub open spec fn enc_opt_fd_bytes(o: Option<SysFd>) -> Seq<u8> {
    match o {
        None => seq![0u8],
        Some(_) => seq![1u8],
    }
}

/// An optional descriptor on the wire: the out-of-band descriptors.
pub open spec fn enc_opt_fd_files(o: Option<SysFd>) -> Seq<u32> {
    match o {
        None => Seq::empty(),
        Some(f) => seq![f.0],
    }
}

/// An optional guest string pointer on the wire.
pub open spec fn enc_opt_vstr(o: Option<VString>) -> Seq<u8> {
    match o {
        None => seq![0u8],
        Some(vs) => seq![1u8] + le64(vs.0.0),
    }
}

/// A log payload on the wire.
pub open spec fn enc_log_bytes(m: LogMessage) -> Seq<u8> {
    match m {
        LogMessage::Emulated(r) => seq![0u8] + enc_rec_bytes(r),
        LogMessage::Remote(r) => seq![1u8] + enc_rec_bytes(r),
        LogMessage::Signal(x) => seq![2u8] + le32(x),
    }
}

/// A tracer-to-guest message on the wire: the bytes.
pub open spec fn enc_to_sand_bytes(m: MessageToSand) -> Seq<u8> {
    le32(m.task.0) + match m.op {
        ToSand::OpenProcessReply(h) => seq![0u8] + le32(h.0),
        ToSand::Reply(res) => seq![1u8] + enc_result_unit(res),
        ToSand::FileReply(res) => seq![2u8] + enc_result_fd_bytes(res),
        ToSand::FileStatReply(res) => seq![3u8] + enc_result_stat(res),
        ToSand::SizeReply(res) => seq![4u8] + enc_result_u64(res),
        ToSand::Init { args } => seq![5u8],
    }
}

/// A tracer-to-guest message on the wire: the descriptors.
pub open spec fn enc_to_sand_files(m: MessageToSand) -> Seq<u32> {
    match m.op {
        ToSand::FileReply(res) => enc_result_fd_files(res),
        ToSand::Init { args } => seq![args.0],
        _ => Seq::empty(),
    }
}

/// A guest-to-tracer message on the wire: the bytes.
pub open spec fn enc_from_sand_bytes(m: MessageFromSand) -> Seq<u8> {
    le32(m.task.0) + match m.op {
        FromSand::OpenProcess(p) => seq![0u8] + le32(p.0),
        FromSand::FileOpen { dir, path, flags, mode } => seq![1u8] + enc_opt_fd_bytes(dir)
            + le64(path.0.0) + le32(i32_bits(flags)) + le32(i32_bits(mode)),
        FromSand::FileAccess { dir, path, mode } => seq![2u8] + enc_opt_fd_bytes(dir)
            + le64(path.0.0) + le32(i32_bits(mode)),
        FromSand::FileStat { file, path, nofollow } => seq![3u8] + enc_opt_fd_bytes(file)
            + enc_opt_vstr(path) + enc_bool(nofollow),
        FromSand::GetWorkingDir(vs, sz) => seq![4u8] + le64(vs.0.0) + le64(sz),
        FromSand::ChangeWorkingDir(vs) => seq![5u8] + le64(vs.0.0),
        FromSand::Log(lv, msg) => seq![6u8] + seq![lv.rank_spec()] + enc_log_bytes(msg),
        FromSand::Exited(c) => seq![7u8] + le32(c),
    }
}

/// A guest-to-tracer message on the wire: the descriptors.
pub open spec fn enc_from_sand_files(m: MessageFromSand) -> Seq<u32> {
    match m.op {
        FromSand::FileOpen { dir, .. } => enc_opt_fd_files(dir),
        FromSand::FileAccess { dir, .. } => enc_opt_fd_files(dir),
        FromSand::FileStat { file, .. } => enc_opt_fd_files(file),
        _ => Seq::empty(),
    }
}

/// Strip a unit result off the wire.
pub open spec fn dec_result_unit(b: Seq<u8>) -> Result<(Result<(), Errno>, Seq<u8>), BufferError> {
    match dec_u8(b) {
        Err(e) => Err(e),
        Ok((t, b1)) => {
            if t == 0 {
                Ok((Ok(()), b1))
            } else if t == 1 {
                match dec_u32(b1) {
                    Err(e) => Err(e),
                    Ok((x, b2)) => Ok((Err(Errno(i32_of_bits(x))), b2)),
                }
            } else {
                Err(BufferError::InvalidValue)
            }
        },
    }
}

/// Strip a descriptor result off the wire.
pub open spec fn dec_result_fd(b: Seq<u8>, f: Seq<u32>)
    -> Result<(Result<SysFd, Errno>, Seq<u8>, Seq<u32>), BufferError>
{
    match dec_u8(b) {
        Err(e) => Err(e),
        Ok((t, b1)) => {
            if t == 0 {
                match dec_fd(f) {
                    Err(e) => Err(e),
                    Ok((x, f1)) => Ok((Ok(SysFd(x)), b1, f1)),
                }
            } else if t == 1 {
                match dec_u32(b1) {
                    Err(e) => Err(e),
                    Ok((x, b2)) => Ok((Err(Errno(i32_of_bits(x))), b2, f)),
                }
            } else {
                Err(BufferError::InvalidValue)
            }
        },
    }
}

/// Strip file metadata off the wire.
#[verifier::opaque]
pub open spec fn dec_stat(b: Seq<u8>) -> Result<(Stat, Seq<u8>), BufferError> {
    match dec_u32(b) {
        Err(e) => Err(e),
        Ok((mode, b1)) => match dec_u64(b1) {
            Err(e) => Err(e),
            Ok((uid, b2)) => match dec_u64(b2) {
                Err(e) => Err(e),
                Ok((gid, b3)) => match dec_u64(b3) {
                    Err(e) => Err(e),
                    Ok((mtime, b4)) => match dec_u64(b4) {
                        Err(e) => Err(e),
                        Ok((nlink, b5)) => match dec_u64(b5) {
                            Err(e) => Err(e),
                            Ok((size, b6)) => Ok(
                                (Stat { mode, uid, gid, mtime, nlink, size }, b6),
                            ),
                        },
                    },
                },
            },
        },
    }
}

/// Strip a stat result off the wire.
pub open spec fn dec_result_stat(b: Seq<u8>)
    -> Result<(Result<FileStat, Errno>, Seq<u8>), BufferError>
{
    match dec_u8(b) {
        Err(e) => Err(e),
        Ok((t, b1)) => {
            if t == 0 {
                match dec_stat(b1) {
                    Err(e) => Err(e),
                    Ok((st, b2)) => Ok((Ok(FileStat { stat: st }), b2)),
                }
            } else if t == 1 {
                match dec_u32(b1) {
                    Err(e) => Err(e),
                    Ok((x, b2)) => Ok((Err(Errno(i32_of_bits(x))), b2)),
                }
            } else {
                Err(BufferError::InvalidValue)
            }
        },
    }
}

/// Strip a size result off the wire.
pub open spec fn dec_result_u64(b: Seq<u8>) -> Result<(Result<u64, Errno>, Seq<u8>), BufferError> {
    match dec_u8(b) {
        Err(e) => Err(e),
        Ok((t, b1)) => {
            if t == 0 {
                match dec_u64(b1) {
                    Err(e) => Err(e),
                    Ok((x, b2)) => Ok((Ok(x), b2)),
                }
            } else if t == 1 {
                match dec_u32(b1) {
                    Err(e) => Err(e),
                    Ok((x, b2)) => Ok((Err(Errno(i32_of_bits(x))), b2)),
                }
            } else {
                Err(BufferError::InvalidValue)
            }
        },
    }
}

/// Strip an optional descriptor off the wire.
pub open spec fn dec_opt_fd(b: Seq<u8>, f: Seq<u32>)
    -> Result<(Option<SysFd>, Seq<u8>, Seq<u32>), BufferError>
{
    match dec_u8(b) {
        Err(e) => Err(e),
        Ok((t, b1)) => {
            if t == 0 {
                Ok((None, b1, f))
            } else if t == 1 {
                match dec_fd(f) {
                    Err(e) => Err(e),
                    Ok((x, f1)) => Ok((Some(SysFd(x)), b1, f1)),
                }
            } else {
                Err(BufferError::InvalidValue)
            }
        },
    }
}

/// Strip an optional guest string pointer off the wire.
pub open spec fn dec_opt_vstr(b: Seq<u8>) -> Result<(Option<VString>, Seq<u8>), BufferError> {
    match dec_u8(b) {
        Err(e) => Err(e),
        Ok((t, b1)) => {
            if t == 0 {
                Ok((None, b1))
            } else if t == 1 {
                match dec_u64(b1) {
                    Err(e) => Err(e),
                    Ok((x, b2)) => Ok((Some(VString(VPtr(x))), b2)),
                }
            } else {
                Err(BufferError::InvalidValue)
            }
        },
    }
}

/// Strip a syscall record off the wire.
#[verifier::opaque]
pub open spec fn dec_rec(b: Seq<u8>) -> Result<(SyscallRecord, Seq<u8>), BufferError> {
    match dec_u64(b) {
        Err(e) => Err(e),
        Ok((nr, b1)) => match dec_u64(b1) {
            Err(e) => Err(e),
            Ok((a0, b2)) => match dec_u64(b2) {
                Err(e) => Err(e),
                Ok((a1, b3)) => match dec_u64(b3) {
                    Err(e) => Err(e),
                    Ok((a2, b4)) => match dec_u64(b4) {
                        Err(e) => Err(e),
                        Ok((a3, b5)) => match dec_u64(b5) {
                            Err(e) => Err(e),
                            Ok((a4, b6)) => match dec_u64(b6) {
                                Err(e) => Err(e),
                                Ok((a5, b7)) => match dec_u64(b7) {
                                    Err(e) => Err(e),
                                    Ok((ret, b8)) => Ok(
                                        (
                                            SyscallRecord {
                                                nr: i64_of_bits(nr),
                                                arg0: i64_of_bits(a0),
                                                arg1: i64_of_bits(a1),
                                                arg2: i64_of_bits(a2),
                                                arg3: i64_of_bits(a3),
                                                arg4: i64_of_bits(a4),
                                                arg5: i64_of_bits(a5),
                                                ret: i64_of_bits(ret),
                                            },
                                            b8,
                                        ),
                                    ),
                                },
                            },
                        },
                    },
                },
            },
        },
    }
}

/// Strip a log level off the wire.
pub open spec fn dec_log_level(b: Seq<u8>) -> Result<(LogLevel, Seq<u8>), BufferError> {
    match dec_u8(b) {
        Err(e) => Err(e),
        Ok((t, b1)) => {
            if t == 0 {
                Ok((LogLevel::Error, b1))
            } else if t == 1 {
                Ok((LogLevel::Warn, b1))
            } else if t == 2 {
                Ok((LogLevel::Info, b1))
            } else if t == 3 {
                Ok((LogLevel::Debug, b1))
            } else if t == 4 {
                Ok((LogLevel::Trace, b1))
            } else {
                Err(BufferError::InvalidValue)
            }
        },
    }
}

/// Strip a log payload off the wire.
pub open spec fn dec_log_msg(b: Seq<u8>) -> Result<(LogMessage, Seq<u8>), BufferError> {
    match dec_u8(b) {
        Err(e) => Err(e),
        Ok((t, b1)) => {
            if t == 0 {
                match dec_rec(b1) {
                    Err(e) => Err(e),
                    Ok((r, b2)) => Ok((LogMessage::Emulated(r), b2)),
                }
            } else if t == 1 {
                match dec_rec(b1) {
                    Err(e) => Err(e),
                    Ok((r, b2)) => Ok((LogMessage::Remote(r), b2)),
                }
            } else if t == 2 {
                match dec_u32(b1) {
                    Err(e) => Err(e),
                    Ok((x, b2)) => Ok((LogMessage::Signal(x), b2)),
                }
            } else {
                Err(BufferError::InvalidValue)
            }
        },
    }
}

/// Decode one tracer-to-guest message from the front of the wire streams.
pub open spec fn dec_to_sand(b: Seq<u8>, f: Seq<u32>)
    -> Result<(MessageToSand, Seq<u8>, Seq<u32>), BufferError>
{
    match dec_u32(b) {
        Err(e) => Err(e),
        Ok((task, b1)) => match dec_u8(b1) {
            Err(e) => Err(e),
            Ok((tag, b2)) => {
                if tag == 0 {
                    match dec_u32(b2) {
                        Err(e) => Err(e),
                        Ok((h, b3)) => Ok(
                            (
                                MessageToSand {
                                    task: VPid(task),
                                    op: ToSand::OpenProcessReply(ProcessHandle(h)),
                                },
                                b3,
                                f,
                            ),
                        ),
                    }
                } else if tag == 1 {
                    match dec_result_unit(b2) {
                        Err(e) => Err(e),
                        Ok((res, b3)) => Ok(
                            (MessageToSand { task: VPid(task), op: ToSand::Reply(res) }, b3, f),
                        ),
                    }
                } else if tag == 2 {
                    match dec_result_fd(b2, f) {
                        Err(e) => Err(e),
                        Ok((res, b3, f1)) => Ok(
                            (
                                MessageToSand { task: VPid(task), op: ToSand::FileReply(res) },
                                b3,
                                f1,
                            ),
                        ),
                    }
                } else if tag == 3 {
                    match dec_result_stat(b2) {
                        Err(e) => Err(e),
                        Ok((res, b3)) => Ok(
                            (
                                MessageToSand {
                                    task: VPid(task),
                                    op: ToSand::FileStatReply(res),
                                },
                                b3,
                                f,
                            ),
                        ),
                    }
                } else if tag == 4 {
                    match dec_result_u64(b2) {
                        Err(e) => Err(e),
                        Ok((res, b3)) => Ok(
                            (
                                MessageToSand { task: VPid(task), op: ToSand::SizeReply(res) },
                                b3,
                                f,
                            ),
                        ),
                    }
                } else if tag == 5 {
                    match dec_fd(f) {
                        Err(e) => Err(e),
                        Ok((x, f1)) => Ok(
                            (
                                MessageToSand {
                                    task: VPid(task),
                                    op: ToSand::Init { args: SysFd(x) },
                                },
                                b2,
                                f1,
                            ),
                        ),
                    }
                } else {
                    Err(BufferError::InvalidValue)
                }
            },
        },
    }
}

/// Decode one guest-to-tracer message from the front of the wire streams.
pub open spec fn dec_from_sand(b: Seq<u8>, f: Seq<u32>)
    -> Result<(MessageFromSand, Seq<u8>, Seq<u32>), BufferError>
{
    match dec_u32(b) {
        Err(e) => Err(e),
        Ok((task, b1)) => match dec_u8(b1) {
            Err(e) => Err(e),
            Ok((tag, b2)) => {
                if tag == 0 {
                    match dec_u32(b2) {
                        Err(e) => Err(e),
                        Ok((p, b3)) => Ok(
                            (
                                MessageFromSand {
                                    task: VPid(task),
                                    op: FromSand::OpenProcess(SysPid(p)),
                                },
                                b3,
                                f,
                            ),
                        ),
                    }
                } else if tag == 1 {
                    match dec_opt_fd(b2, f) {
                        Err(e) => Err(e),
                        Ok((dir, b3, f1)) => match dec_u64(b3) {
                            Err(e) => Err(e),
                            Ok((ptr, b4)) => match dec_u32(b4) {
                                Err(e) => Err(e),
                                Ok((flags, b5)) => match dec_u32(b5) {
                                    Err(e) => Err(e),
                                    Ok((mode, b6)) => Ok(
                                        (
                                            MessageFromSand {
                                                task: VPid(task),
                                                op: FromSand::FileOpen {
                                                    dir,
                                                    path: VString(VPtr(ptr)),
                                                    flags: i32_of_bits(flags),
                                                    mode: i32_of_bits(mode),
                                                },
                                            },
                                            b6,
                                            f1,
                                        ),
                                    ),
                                },
                            },
                        },
                    }
                } else if tag == 2 {
                    match dec_opt_fd(b2, f) {
                        Err(e) => Err(e),
                        Ok((dir, b3, f1)) => match dec_u64(b3) {
                            Err(e) => Err(e),
                            Ok((ptr, b4)) => match dec_u32(b4) {
                                Err(e) => Err(e),
                                Ok((mode, b5)) => Ok(
                                    (
                                        MessageFromSand {
                                            task: VPid(task),
                                            op: FromSand::FileAccess {
                                                dir,
                                                path: VString(VPtr(ptr)),
                                                mode: i32_of_bits(mode),
                                            },
                                        },
                                        b5,
                                        f1,
                                    ),
                                ),
                            },
                        },
                    }
                } else if tag == 3 {
                    match dec_opt_fd(b2, f) {
                        Err(e) => Err(e),
                        Ok((file, b3, f1)) => match dec_opt_vstr(b3) {
                            Err(e) => Err(e),
                            Ok((path, b4)) => match dec_bool(b4) {
                                Err(e) => Err(e),
                                Ok((nofollow, b5)) => Ok(
                                    (
                                        MessageFromSand {
                                            task: VPid(task),
                                            op: FromSand::FileStat { file, path, nofollow },
                                        },
                                        b5,
                                        f1,
                                    ),
                                ),
                            },
                        },
                    }
                } else if tag == 4 {
                    match dec_u64(b2) {
                        Err(e) => Err(e),
                        Ok((ptr, b3)) => match dec_u64(b3) {
                            Err(e) => Err(e),
                            Ok((sz, b4)) => Ok(
                                (
                                    MessageFromSand {
                                        task: VPid(task),
                                        op: FromSand::GetWorkingDir(VString(VPtr(ptr)), sz),
                                    },
                                    b4,
                                    f,
                                ),
                            ),
                        },
                    }
                } else if tag == 5 {
                    match dec_u64(b2) {
                        Err(e) => Err(e),
                        Ok((ptr, b3)) => Ok(
                            (
                                MessageFromSand {
                                    task: VPid(task),
                                    op: FromSand::ChangeWorkingDir(VString(VPtr(ptr))),
                                },
                                b3,
                                f,
                            ),
                        ),
                    }
                } else if tag == 6 {
                    match dec_log_level(b2) {
                        Err(e) => Err(e),
                        Ok((lv, b3)) => match dec_log_msg(b3) {
                            Err(e) => Err(e),
                            Ok((msg, b4)) => Ok(
                                (
                                    MessageFromSand {
                                        task: VPid(task),
                                        op: FromSand::Log(lv, msg),
                                    },
                                    b4,
                                    f,
                                ),
                            ),
                        },
                    }
                } else if tag == 7 {
                    match dec_u32(b2) {
                        Err(e) => Err(e),
                        Ok((c, b3)) => Ok(
                            (
                                MessageFromSand { task: VPid(task), op: FromSand::Exited(c) },
                                b3,
                                f,
                            ),
                        ),
                    }
                } else {
                    Err(BufferError::InvalidValue)
                }
            },
        },
    }
}


/// Decoding inverts encoding: one byte.
pub proof fn lemma_dec_u8_round(t: u8, rest: Seq<u8>)
    ensures
        dec_u8(seq![t] + rest) == Ok::<(u8, Seq<u8>), BufferError>((t, rest)),
{
    let b = seq![t] + rest;
    assert(b[0] == t);
    assert(b.skip(1) =~= rest);
}

/// Decoding inverts encoding: a 32-bit value.
pub proof fn lemma_dec_u32_round(x: u32, rest: Seq<u8>)
    ensures
        dec_u32(le32(x) + rest) == Ok::<(u32, Seq<u8>), BufferError>((x, rest)),
{
    reveal(le32);
    let b = le32(x) + rest;
    assert(b[0] == le32(x)[0] && b[1] == le32(x)[1] && b[2] == le32(x)[2] && b[3] == le32(x)[3]);
    lemma_u32_le_roundtrip(x);
    assert(b.skip(4) =~= rest);
}

/// Decoding inverts encoding: a 64-bit value.
pub proof fn lemma_dec_u64_round(x: u64, rest: Seq<u8>)
    ensures
        dec_u64(le64(x) + rest) == Ok::<(u64, Seq<u8>), BufferError>((x, rest)),
{
    reveal(le64);
    let b = le64(x) + rest;
    assert(b[0] == le64(x)[0] && b[1] == le64(x)[1] && b[2] == le64(x)[2] && b[3] == le64(x)[3]
        && b[4] == le64(x)[4] && b[5] == le64(x)[5] && b[6] == le64(x)[6] && b[7] == le64(x)[7]);
    lemma_u64_le_roundtrip(x);
    assert(b.skip(8) =~= rest);
}

/// Decoding inverts encoding: a boolean.
pub proof fn lemma_dec_bool_round(v: bool, rest: Seq<u8>)
    ensures
        dec_bool(enc_bool(v) + rest) == Ok::<(bool, Seq<u8>), BufferError>((v, rest)),
{
    lemma_dec_u8_round(if v { 1u8 } else { 0u8 }, rest);
    assert(enc_bool(v) + rest =~= seq![if v { 1u8 } else { 0u8 }] + rest);
}

/// Decoding inverts encoding: a descriptor.
pub proof fn lemma_dec_fd_round(x: u32, rest: Seq<u32>)
    ensures
        dec_fd(seq![x] + rest) == Ok::<(u32, Seq<u32>), BufferError>((x, rest)),
{
    let f = seq![x] + rest;
    assert(f[0] == x);
    assert(f.skip(1) =~= rest);
}

/// Decoding inverts encoding: an errno carried as 32 wire bits.
pub proof fn lemma_dec_errno_round(e: Errno, rest: Seq<u8>)
    ensures
        dec_u32(le32(i32_bits(e.0)) + rest) == Ok::<(u32, Seq<u8>), BufferError>(
            (i32_bits(e.0), rest),
        ),
        i32_of_bits(i32_bits(e.0)) == e.0,
{
    lemma_dec_u32_round(i32_bits(e.0), rest);
    lemma_i32_bits_roundtrip(e.0);
}

/// Decoding inverts encoding: file metadata.
pub proof fn lemma_dec_stat_round(st: Stat, rest: Seq<u8>)
    ensures
        dec_stat(enc_stat_bytes(st) + rest) == Ok::<(Stat, Seq<u8>), BufferError>((st, rest)),
{
    reveal(enc_stat_bytes);
    reveal(dec_stat);
    let r5 = le64(st.size) + rest;
    let r4 = le64(st.nlink) + r5;
    let r3 = le64(st.mtime) + r4;
    let r2 = le64(st.gid) + r3;
    let r1 = le64(st.uid) + r2;
    assert(enc_stat_bytes(st) + rest =~= le32(st.mode) + r1);
    lemma_dec_u32_round(st.mode, r1);
    lemma_dec_u64_round(st.uid, r2);
    lemma_dec_u64_round(st.gid, r3);
    lemma_dec_u64_round(st.mtime, r4);
    lemma_dec_u64_round(st.nlink, r5);
    lemma_dec_u64_round(st.size, rest);
}

/// Decoding inverts encoding: a syscall record.
#[verifier::rlimit(100)]
#[verifier::spinoff_prover]
pub proof fn lemma_dec_rec_round(r: SyscallRecord, rest: Seq<u8>)
    ensures
        dec_rec(enc_rec_bytes(r) + rest) == Ok::<(SyscallRecord, Seq<u8>), BufferError>(
            (r, rest),
        ),
{
    reveal(enc_rec_bytes);
    reveal(dec_rec);
    let r7 = le64(i64_bits(r.ret)) + rest;
    let r6 = le64(i64_bits(r.arg5)) + r7;
    let r5 = le64(i64_bits(r.arg4)) + r6;
    let r4 = le64(i64_bits(r.arg3)) + r5;
    let r3 = le64(i64_bits(r.arg2)) + r4;
    let r2 = le64(i64_bits(r.arg1)) + r3;
    let r1 = le64(i64_bits(r.arg0)) + r2;
    assert(enc_rec_bytes(r) + rest =~= le64(i64_bits(r.nr)) + r1);
    lemma_dec_u64_round(i64_bits(r.nr), r1);
    lemma_dec_u64_round(i64_bits(r.arg0), r2);
    lemma_dec_u64_round(i64_bits(r.arg1), r3);
    lemma_dec_u64_round(i64_bits(r.arg2), r4);
    lemma_dec_u64_round(i64_bits(r.arg3), r5);
    lemma_dec_u64_round(i64_bits(r.arg4), r6);
    lemma_dec_u64_round(i64_bits(r.arg5), r7);
    lemma_dec_u64_round(i64_bits(r.ret), rest);
    lemma_i64_bits_roundtrip(r.nr);
    lemma_i64_bits_roundtrip(r.arg0);
    lemma_i64_bits_roundtrip(r.arg1);
    lemma_i64_bits_roundtrip(r.arg2);
    lemma_i64_bits_roundtrip(r.arg3);
    lemma_i64_bits_roundtrip(r.arg4);
    lemma_i64_bits_roundtrip(r.arg5);
    lemma_i64_bits_roundtrip(r.ret);
}

/// Decoding inverts encoding: a unit result.
pub proof fn lemma_dec_result_unit_round(res: Result<(), Errno>, rest: Seq<u8>)
    ensures
        dec_result_unit(enc_result_unit(res) + rest) == Ok::<
            (Result<(), Errno>, Seq<u8>),
            BufferError,
        >((res, rest)),
{
    match res {
        Ok(u) => {
            lemma_dec_u8_round(0, rest);
            assert(enc_result_unit(res) + rest =~= seq![0u8] + rest);
            assert(u == ());
            assert(res == Ok::<(), Errno>(u));
        },
        Err(e) => {
            let r1 = le32(i32_bits(e.0)) + rest;
            assert(enc_result_unit(res) + rest =~= seq![1u8] + r1);
            lemma_dec_u8_round(1, r1);
            lemma_dec_errno_round(e, rest);
        },
    }
}

/// Decoding inverts encoding: a descriptor result.
pub proof fn lemma_dec_result_fd_round(res: Result<SysFd, Errno>, rb: Seq<u8>, rf: Seq<u32>)
    ensures
        dec_result_fd(enc_result_fd_bytes(res) + rb, enc_result_fd_files(res) + rf) == Ok::<
            (Result<SysFd, Errno>, Seq<u8>, Seq<u32>),
            BufferError,
        >((res, rb, rf)),
{
    match res {
        Ok(fd) => {
            lemma_dec_u8_round(0, rb);
            assert(enc_result_fd_bytes(res) + rb =~= seq![0u8] + rb);
            assert(enc_result_fd_files(res) + rf =~= seq![fd.0] + rf);
            lemma_dec_fd_round(fd.0, rf);
        },
        Err(e) => {
            let r1 = le32(i32_bits(e.0)) + rb;
            assert(enc_result_fd_bytes(res) + rb =~= seq![1u8] + r1);
            assert(enc_result_fd_files(res) + rf =~= rf);
            lemma_dec_u8_round(1, r1);
            lemma_dec_errno_round(e, rb);
        },
    }
}

/// Decoding inverts encoding: a stat result.
pub proof fn lemma_dec_result_stat_round(res: Result<FileStat, Errno>, rest: Seq<u8>)
    ensures
        dec_result_stat(enc_result_stat(res) + rest) == Ok::<
            (Result<FileStat, Errno>, Seq<u8>),
            BufferError,
        >((res, rest)),
{
    match res {
        Ok(fs) => {
            let r1 = enc_stat_bytes(fs.stat) + rest;
            assert(enc_result_stat(res) + rest =~= seq![0u8] + r1);
            lemma_dec_u8_round(0, r1);
            lemma_dec_stat_round(fs.stat, rest);
        },
        Err(e) => {
            let r1 = le32(i32_bits(e.0)) + rest;
            assert(enc_result_stat(res) + rest =~= seq![1u8] + r1);
            lemma_dec_u8_round(1, r1);
            lemma_dec_errno_round(e, rest);
        },
    }
}

/// Decoding inverts encoding: a size result.
pub proof fn lemma_dec_result_u64_round(res: Result<u64, Errno>, rest: Seq<u8>)
    ensures
        dec_result_u64(enc_result_u64(res) + rest) == Ok::<
            (Result<u64, Errno>, Seq<u8>),
            BufferError,
        >((res, rest)),
{
    match res {
        Ok(x) => {
            let r1 = le64(x) + rest;
            assert(enc_result_u64(res) + rest =~= seq![0u8] + r1);
            lemma_dec_u8_round(0, r1);
            lemma_dec_u64_round(x, rest);
        },
        Err(e) => {
            let r1 = le32(i32_bits(e.0)) + rest;
            assert(enc_result_u64(res) + rest =~= seq![1u8] + r1);
            lemma_dec_u8_round(1, r1);
            lemma_dec_errno_round(e, rest);
        },
    }
}

/// Decoding inverts encoding: an optional descriptor.
pub proof fn lemma_dec_opt_fd_round(o: Option<SysFd>, rb: Seq<u8>, rf: Seq<u32>)
    ensures
        dec_opt_fd(enc_opt_fd_bytes(o) + rb, enc_opt_fd_files(o) + rf) == Ok::<
            (Option<SysFd>, Seq<u8>, Seq<u32>),
            BufferError,
        >((o, rb, rf)),
{
    match o {
        None => {
            lemma_dec_u8_round(0, rb);
            assert(enc_opt_fd_bytes(o) + rb =~= seq![0u8] + rb);
            assert(enc_opt_fd_files(o) + rf =~= rf);
        },
        Some(fd) => {
            lemma_dec_u8_round(1, rb);
            assert(enc_opt_fd_bytes(o) + rb =~= seq![1u8] + rb);
            assert(enc_opt_fd_files(o) + rf =~= seq![fd.0] + rf);
            lemma_dec_fd_round(fd.0, rf);
        },
    }
}

/// Decoding inverts encoding: an optional guest string pointer.
pub proof fn lemma_dec_opt_vstr_round(o: Option<VString>, rest: Seq<u8>)
    ensures
        dec_opt_vstr(enc_opt_vstr(o) + rest) == Ok::<(Option<VString>, Seq<u8>), BufferError>(
            (o, rest),
        ),
{
    match o {
        None => {
            lemma_dec_u8_round(0, rest);
            assert(enc_opt_vstr(o) + rest =~= seq![0u8] + rest);
        },
        Some(vs) => {
            let r1 = le64(vs.0.0) + rest;
            assert(enc_opt_vstr(o) + rest =~= seq![1u8] + r1);
            lemma_dec_u8_round(1, r1);
            lemma_dec_u64_round(vs.0.0, rest);
        },
    }
}

/// Decoding inverts encoding: a log payload.
#[verifier::rlimit(60)]
pub proof fn lemma_dec_log_msg_round(m: LogMessage, rest: Seq<u8>)
    ensures
        dec_log_msg(enc_log_bytes(m) + rest) == Ok::<(LogMessage, Seq<u8>), BufferError>(
            (m, rest),
        ),
{
    match m {
        LogMessage::Emulated(r) => {
            let r1 = enc_rec_bytes(r) + rest;
            assert(enc_log_bytes(m) + rest =~= seq![0u8] + r1);
            lemma_dec_u8_round(0, r1);
            lemma_dec_rec_round(r, rest);
        },
        LogMessage::Remote(r) => {
            let r1 = enc_rec_bytes(r) + rest;
            assert(enc_log_bytes(m) + rest =~= seq![1u8] + r1);
            lemma_dec_u8_round(1, r1);
            lemma_dec_rec_round(r, rest);
        },
        LogMessage::Signal(x) => {
            let r1 = le32(x) + rest;
            assert(enc_log_bytes(m) + rest =~= seq![2u8] + r1);
            lemma_dec_u8_round(2, r1);
            lemma_dec_u32_round(x, rest);
        },
    }
}

/// Decoding inverts encoding: a log level.
pub proof fn lemma_dec_log_level_round(lv: LogLevel, rest: Seq<u8>)
    ensures
        dec_log_level(seq![lv.rank_spec()] + rest) == Ok::<(LogLevel, Seq<u8>), BufferError>(
            (lv, rest),
        ),
{
    lemma_dec_u8_round(lv.rank_spec(), rest);
}

/// Round trip for tracer-to-guest messages: decoding an encoded message
/// in front of any remainder gives the message back and leaves the
/// remainder, with descriptors in their encoded order.
#[verifier::rlimit(100)]
#[verifier::spinoff_prover]
pub proof fn lemma_to_sand_roundtrip(m: MessageToSand, rb: Seq<u8>, rf: Seq<u32>)
    ensures
        dec_to_sand(enc_to_sand_bytes(m) + rb, enc_to_sand_files(m) + rf) == Ok::<
            (MessageToSand, Seq<u8>, Seq<u32>),
            BufferError,
        >((m, rb, rf)),
{
    let f = enc_to_sand_files(m) + rf;
    match m.op {
        ToSand::OpenProcessReply(h) => {
            let r2 = le32(h.0) + rb;
            let r1 = seq![0u8] + r2;
            assert(enc_to_sand_bytes(m) + rb =~= le32(m.task.0) + r1);
            lemma_dec_u32_round(m.task.0, r1);
            lemma_dec_u8_round(0, r2);
            lemma_dec_u32_round(h.0, rb);
            assert(f =~= rf);
        },
        ToSand::Reply(res) => {
            let r2 = enc_result_unit(res) + rb;
            let r1 = seq![1u8] + r2;
            assert(enc_to_sand_bytes(m) + rb =~= le32(m.task.0) + r1);
            lemma_dec_u32_round(m.task.0, r1);
            lemma_dec_u8_round(1, r2);
            lemma_dec_result_unit_round(res, rb);
            assert(f =~= rf);
        },
        ToSand::FileReply(res) => {
            let r2 = enc_result_fd_bytes(res) + rb;
            let r1 = seq![2u8] + r2;
            assert(enc_to_sand_bytes(m) + rb =~= le32(m.task.0) + r1);
            assert(f =~= enc_result_fd_files(res) + rf);
            lemma_dec_u32_round(m.task.0, r1);
            lemma_dec_u8_round(2, r2);
            lemma_dec_result_fd_round(res, rb, rf);
        },
        ToSand::FileStatReply(res) => {
            let r2 = enc_result_stat(res) + rb;
            let r1 = seq![3u8] + r2;
            assert(enc_to_sand_bytes(m) + rb =~= le32(m.task.0) + r1);
            lemma_dec_u32_round(m.task.0, r1);
            lemma_dec_u8_round(3, r2);
            lemma_dec_result_stat_round(res, rb);
            assert(f =~= rf);
        },
        ToSand::SizeReply(res) => {
            let r2 = enc_result_u64(res) + rb;
            let r1 = seq![4u8] + r2;
            assert(enc_to_sand_bytes(m) + rb =~= le32(m.task.0) + r1);
            lemma_dec_u32_round(m.task.0, r1);
            lemma_dec_u8_round(4, r2);
            lemma_dec_result_u64_round(res, rb);
            assert(f =~= rf);
        },
        ToSand::Init { args } => {
            let r1 = seq![5u8] + rb;
            assert(enc_to_sand_bytes(m) + rb =~= le32(m.task.0) + r1);
            assert(f =~= seq![args.0] + rf);
            lemma_dec_u32_round(m.task.0, r1);
            lemma_dec_u8_round(5, rb);
            lemma_dec_fd_round(args.0, rf);
        },
    }
}

/// Round trip for guest-to-tracer messages.
#[verifier::rlimit(100)]
#[verifier::spinoff_prover]
pub proof fn lemma_from_sand_roundtrip(m: MessageFromSand, rb: Seq<u8>, rf: Seq<u32>)
    ensures
        dec_from_sand(enc_from_sand_bytes(m) + rb, enc_from_sand_files(m) + rf) == Ok::<
            (MessageFromSand, Seq<u8>, Seq<u32>),
            BufferError,
        >((m, rb, rf)),
{
    let f = enc_from_sand_files(m) + rf;
    match m.op {
        FromSand::OpenProcess(p) => {
            let r2 = le32(p.0) + rb;
            let r1 = seq![0u8] + r2;
            assert(enc_from_sand_bytes(m) + rb =~= le32(m.task.0) + r1);
            lemma_dec_u32_round(m.task.0, r1);
            lemma_dec_u8_round(0, r2);
            lemma_dec_u32_round(p.0, rb);
            assert(f =~= rf);
        },
        FromSand::FileOpen { dir, path, flags, mode } => {
            let r5 = le32(i32_bits(mode)) + rb;
            let r4 = le32(i32_bits(flags)) + r5;
            let r3 = le64(path.0.0) + r4;
            let r2 = enc_opt_fd_bytes(dir) + r3;
            let r1 = seq![1u8] + r2;
            assert(enc_from_sand_bytes(m) + rb =~= le32(m.task.0) + r1);
            assert(f =~= enc_opt_fd_files(dir) + rf);
            lemma_dec_u32_round(m.task.0, r1);
            lemma_dec_u8_round(1, r2);
            lemma_dec_opt_fd_round(dir, r3, rf);
            lemma_dec_u64_round(path.0.0, r4);
            lemma_dec_u32_round(i32_bits(flags), r5);
            lemma_i32_bits_roundtrip(flags);
            lemma_dec_u32_round(i32_bits(mode), rb);
            lemma_i32_bits_roundtrip(mode);
        },
        FromSand::FileAccess { dir, path, mode } => {
            let r4 = le32(i32_bits(mode)) + rb;
            let r3 = le64(path.0.0) + r4;
            let r2 = enc_opt_fd_bytes(dir) + r3;
            let r1 = seq![2u8] + r2;
            assert(enc_from_sand_bytes(m) + rb =~= le32(m.task.0) + r1);
            assert(f =~= enc_opt_fd_files(dir) + rf);
            lemma_dec_u32_round(m.task.0, r1);
            lemma_dec_u8_round(2, r2);
            lemma_dec_opt_fd_round(dir, r3, rf);
            lemma_dec_u64_round(path.0.0, r4);
            lemma_dec_u32_round(i32_bits(mode), rb);
            lemma_i32_bits_roundtrip(mode);
        },
        FromSand::FileStat { file, path, nofollow } => {
            let r4 = enc_bool(nofollow) + rb;
            let r3 = enc_opt_vstr(path) + r4;
            let r2 = enc_opt_fd_bytes(file) + r3;
            let r1 = seq![3u8] + r2;
            assert(enc_from_sand_bytes(m) + rb =~= le32(m.task.0) + r1);
            assert(f =~= enc_opt_fd_files(file) + rf);
            lemma_dec_u32_round(m.task.0, r1);
            lemma_dec_u8_round(3, r2);
            lemma_dec_opt_fd_round(file, r3, rf);
            lemma_dec_opt_vstr_round(path, r4);
            lemma_dec_bool_round(nofollow, rb);
        },
        FromSand::GetWorkingDir(vs, sz) => {
            let r3 = le64(sz) + rb;
            let r2 = le64(vs.0.0) + r3;
            let r1 = seq![4u8] + r2;
            assert(enc_from_sand_bytes(m) + rb =~= le32(m.task.0) + r1);
            lemma_dec_u32_round(m.task.0, r1);
            lemma_dec_u8_round(4, r2);
            lemma_dec_u64_round(vs.0.0, r3);
            lemma_dec_u64_round(sz, rb);
            assert(f =~= rf);
        },
        FromSand::ChangeWorkingDir(vs) => {
            let r2 = le64(vs.0.0) + rb;
            let r1 = seq![5u8] + r2;
            assert(enc_from_sand_bytes(m) + rb =~= le32(m.task.0) + r1);
            lemma_dec_u32_round(m.task.0, r1);
            lemma_dec_u8_round(5, r2);
            lemma_dec_u64_round(vs.0.0, rb);
            assert(f =~= rf);
        },
        FromSand::Log(lv, msg) => {
            let r3 = enc_log_bytes(msg) + rb;
            let r2 = seq![lv.rank_spec()] + r3;
            let r1 = seq![6u8] + r2;
            assert(enc_from_sand_bytes(m) + rb =~= le32(m.task.0) + r1);
            lemma_dec_u32_round(m.task.0, r1);
            lemma_dec_u8_round(6, r2);
            lemma_dec_log_level_round(lv, r3);
            lemma_dec_log_msg_round(msg, rb);
            assert(f =~= rf);
        },
        FromSand::Exited(c) => {
            let r2 = le32(c) + rb;
            let r1 = seq![7u8] + r2;
            assert(enc_from_sand_bytes(m) + rb =~= le32(m.task.0) + r1);
            lemma_dec_u32_round(m.task.0, r1);
            lemma_dec_u8_round(7, r2);
            lemma_dec_u32_round(c, rb);
            assert(f =~= rf);
        },
    }
}



/// The wire width of a 32-bit value.
pub proof fn lemma_le32_len(x: u32)
    ensures
        le32(x).len() == 4,
{
    reveal(le32);
}

/// The wire width of a 64-bit value.
pub proof fn lemma_le64_len(x: u64)
    ensures
        le64(x).len() == 8,
{
    reveal(le64);
}

/// The wire width of file metadata.
pub proof fn lemma_enc_stat_len(s: Stat)
    ensures
        enc_stat_bytes(s).len() == 44,
{
    reveal(enc_stat_bytes);
    lemma_le32_len(s.mode);
    lemma_le64_len(s.uid);
    lemma_le64_len(s.gid);
    lemma_le64_len(s.mtime);
    lemma_le64_len(s.nlink);
    lemma_le64_len(s.size);
}

/// The wire width of a syscall record.
pub proof fn lemma_enc_rec_len(r: SyscallRecord)
    ensures
        enc_rec_bytes(r).len() == 64,
{
    reveal(enc_rec_bytes);
    lemma_le64_len(i64_bits(r.nr));
    lemma_le64_len(i64_bits(r.arg0));
    lemma_le64_len(i64_bits(r.arg1));
    lemma_le64_len(i64_bits(r.arg2));
    lemma_le64_len(i64_bits(r.arg3));
    lemma_le64_len(i64_bits(r.arg4));
    lemma_le64_len(i64_bits(r.arg5));
    lemma_le64_len(i64_bits(r.ret));
}

/// The wire bits of a signed 32-bit value.
fn i32_to_bits(x: i32) -> (r: u32)
    ensures
        r == i32_bits(x),
{
    #[verifier::truncate] (x as u32)
}

/// The signed value carried by 32 wire bits.
fn bits_to_i32(x: u32) -> (r: i32)
    ensures
        r == i32_of_bits(x),
{
    #[verifier::truncate] (x as i32)
}

/// The wire bits of a signed 64-bit value.
fn i64_to_bits(x: i64) -> (r: u64)
    ensures
        r == i64_bits(x),
{
    #[verifier::truncate] (x as u64)
}

/// The signed value carried by 64 wire bits.
fn bits_to_i64(x: u64) -> (r: i64)
    ensures
        r == i64_of_bits(x),
{
    #[verifier::truncate] (x as i64)
}

/// Append file metadata; the caller has checked the room.
fn push_stat(buf: &mut IPCBuffer, st: Stat)
    requires
        old(buf).inv(),
        old(buf)@.consumed_bytes + old(buf)@.bytes.len() + 44 <= BYTES_MAX,
    ensures
        final(buf).inv(),
        final(buf)@.bytes == old(buf)@.bytes + enc_stat_bytes(st),
        final(buf)@.files == old(buf)@.files,
        final(buf)@.consumed_bytes == old(buf)@.consumed_bytes,
        final(buf)@.consumed_files == old(buf)@.consumed_files,
{
    proof {
        lemma_le32_len(st.mode);
        lemma_le64_len(st.uid);
        lemma_le64_len(st.gid);
        lemma_le64_len(st.mtime);
        lemma_le64_len(st.nlink);
        lemma_le64_len(st.size);
    }
    push_u32(buf, st.mode);
    push_u64(buf, st.uid);
    push_u64(buf, st.gid);
    push_u64(buf, st.mtime);
    push_u64(buf, st.nlink);
    push_u64(buf, st.size);
    proof {
        reveal(enc_stat_bytes);
        assert(final(buf)@.bytes =~= old(buf)@.bytes + enc_stat_bytes(st));
    }
}

/// Append a syscall record; the caller has checked the room.
fn push_rec(buf: &mut IPCBuffer, r: SyscallRecord)
    requires
        old(buf).inv(),
        old(buf)@.consumed_bytes + old(buf)@.bytes.len() + 64 <= BYTES_MAX,
    ensures
        final(buf).inv(),
        final(buf)@.bytes == old(buf)@.bytes + enc_rec_bytes(r),
        final(buf)@.files == old(buf)@.files,
        final(buf)@.consumed_bytes == old(buf)@.consumed_bytes,
        final(buf)@.consumed_files == old(buf)@.consumed_files,
{
    proof {
        lemma_le64_len(i64_bits(r.nr));
        lemma_le64_len(i64_bits(r.arg0));
        lemma_le64_len(i64_bits(r.arg1));
        lemma_le64_len(i64_bits(r.arg2));
        lemma_le64_len(i64_bits(r.arg3));
        lemma_le64_len(i64_bits(r.arg4));
        lemma_le64_len(i64_bits(r.arg5));
        lemma_le64_len(i64_bits(r.ret));
    }
    push_u64(buf, i64_to_bits(r.nr));
    push_u64(buf, i64_to_bits(r.arg0));
    push_u64(buf, i64_to_bits(r.arg1));
    push_u64(buf, i64_to_bits(r.arg2));
    push_u64(buf, i64_to_bits(r.arg3));
    push_u64(buf, i64_to_bits(r.arg4));
    push_u64(buf, i64_to_bits(r.arg5));
    push_u64(buf, i64_to_bits(r.ret));
    proof {
        reveal(enc_rec_bytes);
        assert(final(buf)@.bytes =~= old(buf)@.bytes + enc_rec_bytes(r));
    }
}


impl MessageToSand {
    /// The wire footprint of this message: bytes and descriptors.
    fn encoded_len(&self) -> (r: (usize, usize))
        ensures
            r.0 as nat == enc_to_sand_bytes(*self).len(),
            r.1 as nat == enc_to_sand_files(*self).len(),
    {
        proof {
            lemma_le32_len(self.task.0);
        }
        match &self.op {
            ToSand::OpenProcessReply(h) => {
                proof {
                    lemma_le32_len(h.0);
                }
                (9, 0)
            },
            ToSand::Reply(res) => match res {
                Ok(_) => (6, 0),
                Err(e) => {
                    proof {
                        lemma_le32_len(i32_bits(e.0));
                    }
                    (10, 0)
                },
            },
            ToSand::FileReply(res) => match res {
                Ok(_) => (6, 1),
                Err(e) => {
                    proof {
                        lemma_le32_len(i32_bits(e.0));
                    }
                    (10, 0)
                },
            },
            ToSand::FileStatReply(res) => match res {
                Ok(fs) => {
                    proof {
                        lemma_enc_stat_len(fs.stat);
                    }
                    (50, 0)
                },
                Err(e) => {
                    proof {
                        lemma_le32_len(i32_bits(e.0));
                    }
                    (10, 0)
                },
            },
            ToSand::SizeReply(res) => match res {
                Ok(x) => {
                    proof {
                        lemma_le64_len(*x);
                    }
                    (14, 0)
                },
                Err(e) => {
                    proof {
                        lemma_le32_len(i32_bits(e.0));
                    }
                    (10, 0)
                },
            },
            ToSand::Init { args } => (5, 1),
        }
    }

    /// Serialize this message at the back of the buffer; all or nothing.
    pub fn encode(&self, buf: &mut IPCBuffer) -> (r: Result<(), BufferError>)
        requires
            old(buf).inv(),
        ensures
            final(buf).inv(),
            final(buf)@.consumed_bytes == old(buf)@.consumed_bytes,
            final(buf)@.consumed_files == old(buf)@.consumed_files,
            r is Ok ==> final(buf)@.bytes == old(buf)@.bytes + enc_to_sand_bytes(*self)
                && final(buf)@.files == old(buf)@.files + enc_to_sand_files(*self),
            r is Err ==> r == Result::<(), BufferError>::Err(BufferError::BufferFull)
                && final(buf)@ == old(buf)@,
            r is Ok <==> (old(buf)@.consumed_bytes + old(buf)@.bytes.len()
                + enc_to_sand_bytes(*self).len() <= BYTES_MAX && old(buf)@.consumed_files
                + old(buf)@.files.len() + enc_to_sand_files(*self).len() <= FILES_MAX),
    {
        let (nb, nf) = self.encoded_len();
        if buf.byte_room() < nb || buf.file_room() < nf {
            return Err(BufferError::BufferFull);
        }
        proof {
            lemma_le32_len(self.task.0);
            match self.op {
                ToSand::OpenProcessReply(h) => {
                    lemma_le32_len(h.0);
                },
                ToSand::Reply(res) => match res {
                    Ok(_) => {},
                    Err(e) => {
                        lemma_le32_len(i32_bits(e.0));
                    },
                },
                ToSand::FileReply(res) => match res {
                    Ok(_) => {},
                    Err(e) => {
                        lemma_le32_len(i32_bits(e.0));
                    },
                },
                ToSand::FileStatReply(res) => match res {
                    Ok(fs) => {
                        lemma_enc_stat_len(fs.stat);
                    },
                    Err(e) => {
                        lemma_le32_len(i32_bits(e.0));
                    },
                },
                ToSand::SizeReply(res) => match res {
                    Ok(x) => {
                        lemma_le64_len(x);
                    },
                    Err(e) => {
                        lemma_le32_len(i32_bits(e.0));
                    },
                },
                ToSand::Init { args } => {},
            }
        }
        push_u32(buf, self.task.0);
        match &self.op {
            ToSand::OpenProcessReply(h) => {
                push_u8(buf, 0);
                push_u32(buf, h.0);
            },
            ToSand::Reply(res) => {
                push_u8(buf, 1);
                match res {
                    Ok(_) => {
                        push_u8(buf, 0);
                    },
                    Err(e) => {
                        push_u8(buf, 1);
                        push_u32(buf, i32_to_bits(e.0));
                    },
                }
            },
            ToSand::FileReply(res) => {
                push_u8(buf, 2);
                match res {
                    Ok(fd) => {
                        push_u8(buf, 0);
                        push_fd(buf, fd.0);
                    },
                    Err(e) => {
                        push_u8(buf, 1);
                        push_u32(buf, i32_to_bits(e.0));
                    },
                }
            },
            ToSand::FileStatReply(res) => {
                push_u8(buf, 3);
                match res {
                    Ok(fs) => {
                        push_u8(buf, 0);
                        push_stat(buf, fs.stat);
                    },
                    Err(e) => {
                        push_u8(buf, 1);
                        push_u32(buf, i32_to_bits(e.0));
                    },
                }
            },
            ToSand::SizeReply(res) => {
                push_u8(buf, 4);
                match res {
                    Ok(x) => {
                        push_u8(buf, 0);
                        push_u64(buf, *x);
                    },
                    Err(e) => {
                        push_u8(buf, 1);
                        push_u32(buf, i32_to_bits(e.0));
                    },
                }
            },
            ToSand::Init { args } => {
                push_u8(buf, 5);
                push_fd(buf, args.0);
            },
        }
        proof {
            assert(final(buf)@.bytes =~= old(buf)@.bytes + enc_to_sand_bytes(*self));
            assert(final(buf)@.files =~= old(buf)@.files + enc_to_sand_files(*self));
        }
        Ok(())
    }

    /// Deserialize one message from the front of the buffer.
    #[verifier::rlimit(100)]
    #[verifier::spinoff_prover]
    pub fn decode(buf: &mut IPCBuffer) -> (r: Result<MessageToSand, BufferError>)
        requires
            old(buf).inv(),
        ensures
            final(buf).inv(),
            match dec_to_sand(old(buf)@.bytes, old(buf)@.files) {
                Ok((m, rb, rf)) => r == Result::<MessageToSand, BufferError>::Ok(m)
                    && final(buf)@.bytes == rb && final(buf)@.files == rf,
                Err(e) => r == Result::<MessageToSand, BufferError>::Err(e),
            },
    {
        let task = match pop_u32(buf) {
            Ok(x) => x,
            Err(e) => {
                return Err(e);
            },
        };
        let tag = match pop_u8(buf) {
            Ok(x) => x,
            Err(e) => {
                return Err(e);
            },
        };
        if tag == 0 {
            let h = match pop_u32(buf) {
                Ok(x) => x,
                Err(e) => {
                    return Err(e);
                },
            };
            Ok(MessageToSand { task: VPid(task), op: ToSand::OpenProcessReply(ProcessHandle(h)) })
        } else if tag == 1 {
            let t = match pop_u8(buf) {
                Ok(x) => x,
                Err(e) => {
                    return Err(e);
                },
            };
            if t == 0 {
                Ok(MessageToSand { task: VPid(task), op: ToSand::Reply(Ok(())) })
            } else if t == 1 {
                let x = match pop_u32(buf) {
                    Ok(x) => x,
                    Err(e) => {
                        return Err(e);
                    },
                };
                Ok(MessageToSand {
                    task: VPid(task),
                    op: ToSand::Reply(Err(Errno(bits_to_i32(x)))),
                })
            } else {
                Err(BufferError::InvalidValue)
            }
        } else if tag == 2 {
            let t = match pop_u8(buf) {
                Ok(x) => x,
                Err(e) => {
                    return Err(e);
                },
            };
            if t == 0 {
                let fd = match pop_fd(buf) {
                    Ok(x) => x,
                    Err(e) => {
                        return Err(e);
                    },
                };
                Ok(MessageToSand { task: VPid(task), op: ToSand::FileReply(Ok(SysFd(fd))) })
            } else if t == 1 {
                let x = match pop_u32(buf) {
                    Ok(x) => x,
                    Err(e) => {
                        return Err(e);
                    },
                };
                Ok(MessageToSand {
                    task: VPid(task),
                    op: ToSand::FileReply(Err(Errno(bits_to_i32(x)))),
                })
            } else {
                Err(BufferError::InvalidValue)
            }
        } else if tag == 3 {
            let t = match pop_u8(buf) {
                Ok(x) => x,
                Err(e) => {
                    return Err(e);
                },
            };
            if t == 0 {
                let st = match pop_stat(buf) {
                    Ok(x) => x,
                    Err(e) => {
                        return Err(e);
                    },
                };
                Ok(MessageToSand {
                    task: VPid(task),
                    op: ToSand::FileStatReply(Ok(FileStat { stat: st })),
                })
            } else if t == 1 {
                let x = match pop_u32(buf) {
                    Ok(x) => x,
                    Err(e) => {
                        return Err(e);
                    },
                };
                Ok(MessageToSand {
                    task: VPid(task),
                    op: ToSand::FileStatReply(Err(Errno(bits_to_i32(x)))),
                })
            } else {
                Err(BufferError::InvalidValue)
            }
        } else if tag == 4 {
            let t = match pop_u8(buf) {
                Ok(x) => x,
                Err(e) => {
                    return Err(e);
                },
            };
            if t == 0 {
                let x = match pop_u64(buf) {
                    Ok(x) => x,
                    Err(e) => {
                        return Err(e);
                    },
                };
                Ok(MessageToSand { task: VPid(task), op: ToSand::SizeReply(Ok(x)) })
            } else if t == 1 {
                let x = match pop_u32(buf) {
                    Ok(x) => x,
                    Err(e) => {
                        return Err(e);
                    },
                };
                Ok(MessageToSand {
                    task: VPid(task),
                    op: ToSand::SizeReply(Err(Errno(bits_to_i32(x)))),
                })
            } else {
                Err(BufferError::InvalidValue)
            }
        } else if tag == 5 {
            let fd = match pop_fd(buf) {
                Ok(x) => x,
                Err(e) => {
                    return Err(e);
                },
            };
            Ok(MessageToSand { task: VPid(task), op: ToSand::Init { args: SysFd(fd) } })
        } else {
            Err(BufferError::InvalidValue)
        }
    }
}

/// Read file metadata from the buffer front.
fn pop_stat(buf: &mut IPCBuffer) -> (r: Result<Stat, BufferError>)
    requires
        old(buf).inv(),
    ensures
        final(buf).inv(),
        final(buf)@.files == old(buf)@.files,
        final(buf)@.consumed_files == old(buf)@.consumed_files,
        match dec_stat(old(buf)@.bytes) {
            Ok((x, rest)) => r == Result::<Stat, BufferError>::Ok(x) && final(buf)@.bytes == rest,
            Err(e) => r == Result::<Stat, BufferError>::Err(e),
        },
{
    proof {
        reveal(dec_stat);
    }
    let mode = match pop_u32(buf) {
        Ok(x) => x,
        Err(e) => {
            return Err(e);
        },
    };
    let uid = match pop_u64(buf) {
        Ok(x) => x,
        Err(e) => {
            return Err(e);
        },
    };
    let gid = match pop_u64(buf) {
        Ok(x) => x,
        Err(e) => {
            return Err(e);
        },
    };
    let mtime = match pop_u64(buf) {
        Ok(x) => x,
        Err(e) => {
            return Err(e);
        },
    };
    let nlink = match pop_u64(buf) {
        Ok(x) => x,
        Err(e) => {
            return Err(e);
        },
    };
    let size = match pop_u64(buf) {
        Ok(x) => x,
        Err(e) => {
            return Err(e);
        },
    };
    Ok(Stat { mode, uid, gid, mtime, nlink, size })
}

/// Read a syscall record from the buffer front.
fn pop_rec(buf: &mut IPCBuffer) -> (r: Result<SyscallRecord, BufferError>)
    requires
        old(buf).inv(),
    ensures
        final(buf).inv(),
        final(buf)@.files == old(buf)@.files,
        final(buf)@.consumed_files == old(buf)@.consumed_files,
        match dec_rec(old(buf)@.bytes) {
            Ok((x, rest)) => r == Result::<SyscallRecord, BufferError>::Ok(x)
                && final(buf)@.bytes == rest,
            Err(e) => r == Result::<SyscallRecord, BufferError>::Err(e),
        },
{
    proof {
        reveal(dec_rec);
    }
    let nr = match pop_u64(buf) {
        Ok(x) => x,
        Err(e) => {
            return Err(e);
        },
    };
    let a0 = match pop_u64(buf) {
        Ok(x) => x,
        Err(e) => {
            return Err(e);
        },
    };
    let a1 = match pop_u64(buf) {
        Ok(x) => x,
        Err(e) => {
            return Err(e);
        },
    };
    let a2 = match pop_u64(buf) {
        Ok(x) => x,
        Err(e) => {
            return Err(e);
        },
    };
    let a3 = match pop_u64(buf) {
        Ok(x) => x,
        Err(e) => {
            return Err(e);
        },
    };
    let a4 = match pop_u64(buf) {
        Ok(x) => x,
        Err(e) => {
            return Err(e);
        },
    };
    let a5 = match pop_u64(buf) {
        Ok(x) => x,
        Err(e) => {
            return Err(e);
        },
    };
    let ret = match pop_u64(buf) {
        Ok(x) => x,
        Err(e) => {
            return Err(e);
        },
    };
    Ok(SyscallRecord {
        nr: bits_to_i64(nr),
        arg0: bits_to_i64(a0),
        arg1: bits_to_i64(a1),
        arg2: bits_to_i64(a2),
        arg3: bits_to_i64(a3),
        arg4: bits_to_i64(a4),
        arg5: bits_to_i64(a5),
        ret: bits_to_i64(ret),
    })
}


/// Append an optional descriptor marker; the caller has checked the room.
fn push_opt_fd(buf: &mut IPCBuffer, o: &Option<SysFd>)
    requires
        old(buf).inv(),
        old(buf)@.consumed_bytes + old(buf)@.bytes.len() + 1 <= BYTES_MAX,
        old(buf)@.consumed_files + old(buf)@.files.len() + enc_opt_fd_files(*o).len()
            <= FILES_MAX,
    ensures
        final(buf).inv(),
        final(buf)@.bytes == old(buf)@.bytes + enc_opt_fd_bytes(*o),
        final(buf)@.files == old(buf)@.files + enc_opt_fd_files(*o),
        final(buf)@.consumed_bytes == old(buf)@.consumed_bytes,
        final(buf)@.consumed_files == old(buf)@.consumed_files,
{
    match o {
        None => {
            push_u8(buf, 0);
            proof {
                assert(final(buf)@.bytes =~= old(buf)@.bytes + enc_opt_fd_bytes(*o));
                assert(final(buf)@.files =~= old(buf)@.files + enc_opt_fd_files(*o));
            }
        },
        Some(fd) => {
            push_u8(buf, 1);
            push_fd(buf, fd.0);
            proof {
                assert(final(buf)@.bytes =~= old(buf)@.bytes + enc_opt_fd_bytes(*o));
                assert(final(buf)@.files =~= old(buf)@.files + enc_opt_fd_files(*o));
            }
        },
    }
}

/// Read an optional descriptor from the buffer front.
fn pop_opt_fd(buf: &mut IPCBuffer) -> (r: Result<Option<SysFd>, BufferError>)
    requires
        old(buf).inv(),
    ensures
        final(buf).inv(),
        match dec_opt_fd(old(buf)@.bytes, old(buf)@.files) {
            Ok((o, rb, rf)) => r == Result::<Option<SysFd>, BufferError>::Ok(o)
                && final(buf)@.bytes == rb && final(buf)@.files == rf,
            Err(e) => r == Result::<Option<SysFd>, BufferError>::Err(e),
        },
{
    let t = match pop_u8(buf) {
        Ok(x) => x,
        Err(e) => {
            return Err(e);
        },
    };
    if t == 0 {
        Ok(None)
    } else if t == 1 {
        let fd = match pop_fd(buf) {
            Ok(x) => x,
            Err(e) => {
                return Err(e);
            },
        };
        Ok(Some(SysFd(fd)))
    } else {
        Err(BufferError::InvalidValue)
    }
}

impl MessageFromSand {
    /// The wire footprint of this message: bytes and descriptors.
    fn encoded_len(&self) -> (r: (usize, usize))
        ensures
            r.0 as nat == enc_from_sand_bytes(*self).len(),
            r.1 as nat == enc_from_sand_files(*self).len(),
    {
        proof {
            lemma_le32_len(self.task.0);
            match self.op {
                FromSand::OpenProcess(p) => {
                    lemma_le32_len(p.0);
                },
                FromSand::FileOpen { dir, path, flags, mode } => {
                    lemma_le64_len(path.0.0);
                    lemma_le32_len(i32_bits(flags));
                    lemma_le32_len(i32_bits(mode));
                },
                FromSand::FileAccess { dir, path, mode } => {
                    lemma_le64_len(path.0.0);
                    lemma_le32_len(i32_bits(mode));
                },
                FromSand::FileStat { file, path, nofollow } => {
                    match path {
                        Some(vs) => {
                            lemma_le64_len(vs.0.0);
                        },
                        None => {},
                    }
                },
                FromSand::GetWorkingDir(vs, sz) => {
                    lemma_le64_len(vs.0.0);
                    lemma_le64_len(sz);
                },
                FromSand::ChangeWorkingDir(vs) => {
                    lemma_le64_len(vs.0.0);
                },
                FromSand::Log(lv, msg) => {
                    match msg {
                        LogMessage::Emulated(r) => {
                            lemma_enc_rec_len(r);
                        },
                        LogMessage::Remote(r) => {
                            lemma_enc_rec_len(r);
                        },
                        LogMessage::Signal(x) => {
                            lemma_le32_len(x);
                        },
                    }
                },
                FromSand::Exited(c) => {
                    lemma_le32_len(c);
                },
            }
        }
        match &self.op {
            FromSand::OpenProcess(_) => (9, 0),
            FromSand::FileOpen { dir, .. } => (
                22,
                match dir {
                    Some(_) => 1,
                    None => 0,
                },
            ),
            FromSand::FileAccess { dir, .. } => (
                18,
                match dir {
                    Some(_) => 1,
                    None => 0,
                },
            ),
            FromSand::FileStat { file, path, .. } => {
                let pb: usize = match path {
                    Some(_) => 9,
                    None => 1,
                };
                (
                    7 + pb,
                    match file {
                        Some(_) => 1,
                        None => 0,
                    },
                )
            },
            FromSand::GetWorkingDir(_, _) => (21, 0),
            FromSand::ChangeWorkingDir(_) => (13, 0),
            FromSand::Log(_, msg) => match msg {
                LogMessage::Emulated(_) => (71, 0),
                LogMessage::Remote(_) => (71, 0),
                LogMessage::Signal(_) => (11, 0),
            },
            FromSand::Exited(_) => (9, 0),
        }
    }

    /// Serialize this message at the back of the buffer; all or nothing.
    #[verifier::rlimit(100)]
    #[verifier::spinoff_prover]
    pub fn encode(&self, buf: &mut IPCBuffer) -> (r: Result<(), BufferError>)
        requires
            old(buf).inv(),
        ensures
            final(buf).inv(),
            final(buf)@.consumed_bytes == old(buf)@.consumed_bytes,
            final(buf)@.consumed_files == old(buf)@.consumed_files,
            r is Ok ==> final(buf)@.bytes == old(buf)@.bytes + enc_from_sand_bytes(*self)
                && final(buf)@.files == old(buf)@.files + enc_from_sand_files(*self),
            r is Err ==> r == Result::<(), BufferError>::Err(BufferError::BufferFull)
                && final(buf)@ == old(buf)@,
            r is Ok <==> (old(buf)@.consumed_bytes + old(buf)@.bytes.len()
                + enc_from_sand_bytes(*self).len() <= BYTES_MAX && old(buf)@.consumed_files
                + old(buf)@.files.len() + enc_from_sand_files(*self).len() <= FILES_MAX),
    {
        let (nb, nf) = self.encoded_len();
        if buf.byte_room() < nb || buf.file_room() < nf {
            return Err(BufferError::BufferFull);
        }
        proof {
            lemma_le32_len(self.task.0);
            match self.op {
                FromSand::OpenProcess(p) => {
                    lemma_le32_len(p.0);
                },
                FromSand::FileOpen { dir, path, flags, mode } => {
                    lemma_le64_len(path.0.0);
                    lemma_le32_len(i32_bits(flags));
                    lemma_le32_len(i32_bits(mode));
                },
                FromSand::FileAccess { dir, path, mode } => {
                    lemma_le64_len(path.0.0);
                    lemma_le32_len(i32_bits(mode));
                },
                FromSand::FileStat { file, path, nofollow } => {
                    match path {
                        Some(vs) => {
                            lemma_le64_len(vs.0.0);
                        },
                        None => {},
                    }
                },
                FromSand::GetWorkingDir(vs, sz) => {
                    lemma_le64_len(vs.0.0);
                    lemma_le64_len(sz);
                },
                FromSand::ChangeWorkingDir(vs) => {
                    lemma_le64_len(vs.0.0);
                },
                FromSand::Log(lv, msg) => {
                    match msg {
                        LogMessage::Emulated(r) => {
                            lemma_enc_rec_len(r);
                        },
                        LogMessage::Remote(r) => {
                            lemma_enc_rec_len(r);
                        },
                        LogMessage::Signal(x) => {
                            lemma_le32_len(x);
                        },
                    }
                },
                FromSand::Exited(c) => {
                    lemma_le32_len(c);
                },
            }
        }
        push_u32(buf, self.task.0);
        match &self.op {
            FromSand::OpenProcess(p) => {
                push_u8(buf, 0);
                push_u32(buf, p.0);
            },
            FromSand::FileOpen { dir, path, flags, mode } => {
                push_u8(buf, 1);
                push_opt_fd(buf, dir);
                push_u64(buf, path.0.0);
                push_u32(buf, i32_to_bits(*flags));
                push_u32(buf, i32_to_bits(*mode));
            },
            FromSand::FileAccess { dir, path, mode } => {
                push_u8(buf, 2);
                push_opt_fd(buf, dir);
                push_u64(buf, path.0.0);
                push_u32(buf, i32_to_bits(*mode));
            },
            FromSand::FileStat { file, path, nofollow } => {
                push_u8(buf, 3);
                push_opt_fd(buf, file);
                match path {
                    None => {
                        push_u8(buf, 0);
                    },
                    Some(vs) => {
                        push_u8(buf, 1);
                        push_u64(buf, vs.0.0);
                    },
                }
                push_u8(
                    buf,
                    if *nofollow {
                        1
                    } else {
                        0
                    },
                );
            },
            FromSand::GetWorkingDir(vs, sz) => {
                push_u8(buf, 4);
                push_u64(buf, vs.0.0);
                push_u64(buf, *sz);
            },
            FromSand::ChangeWorkingDir(vs) => {
                push_u8(buf, 5);
                push_u64(buf, vs.0.0);
            },
            FromSand::Log(lv, msg) => {
                push_u8(buf, 6);
                push_u8(buf, lv.rank());
                match msg {
                    LogMessage::Emulated(r) => {
                        push_u8(buf, 0);
                        push_rec(buf, *r);
                    },
                    LogMessage::Remote(r) => {
                        push_u8(buf, 1);
                        push_rec(buf, *r);
                    },
                    LogMessage::Signal(x) => {
                        push_u8(buf, 2);
                        push_u32(buf, *x);
                    },
                }
            },
            FromSand::Exited(c) => {
                push_u8(buf, 7);
                push_u32(buf, *c);
            },
        }
        proof {
            assert(final(buf)@.bytes =~= old(buf)@.bytes + enc_from_sand_bytes(*self));
            assert(final(buf)@.files =~= old(buf)@.files + enc_from_sand_files(*self));
        }
        Ok(())
    }

    /// Deserialize one message from the front of the buffer.
    #[verifier::rlimit(100)]
    #[verifier::spinoff_prover]
    pub fn decode(buf: &mut IPCBuffer) -> (r: Result<MessageFromSand, BufferError>)
        requires
            old(buf).inv(),
        ensures
            final(buf).inv(),
            match dec_from_sand(old(buf)@.bytes, old(buf)@.files) {
                Ok((m, rb, rf)) => r == Result::<MessageFromSand, BufferError>::Ok(m)
                    && final(buf)@.bytes == rb && final(buf)@.files == rf,
                Err(e) => r == Result::<MessageFromSand, BufferError>::Err(e),
            },
    {
        let task = match pop_u32(buf) {
            Ok(x) => x,
            Err(e) => {
                return Err(e);
            },
        };
        let tag = match pop_u8(buf) {
            Ok(x) => x,
            Err(e) => {
                return Err(e);
            },
        };
        if tag == 0 {
            let p = match pop_u32(buf) {
                Ok(x) => x,
                Err(e) => {
                    return Err(e);
                },
            };
            Ok(MessageFromSand { task: VPid(task), op: FromSand::OpenProcess(SysPid(p)) })
        } else if tag == 1 {
            let dir = match pop_opt_fd(buf) {
                Ok(x) => x,
                Err(e) => {
                    return Err(e);
                },
            };
            let ptr = match pop_u64(buf) {
                Ok(x) => x,
                Err(e) => {
                    return Err(e);
                },
            };
            let flags = match pop_u32(buf) {
                Ok(x) => x,
                Err(e) => {
                    return Err(e);
                },
            };
            let mode = match pop_u32(buf) {
                Ok(x) => x,
                Err(e) => {
                    return Err(e);
                },
            };
            Ok(MessageFromSand {
                task: VPid(task),
                op: FromSand::FileOpen {
                    dir,
                    path: VString(VPtr(ptr)),
                    flags: bits_to_i32(flags),
                    mode: bits_to_i32(mode),
                },
            })
        } else if tag == 2 {
            let dir = match pop_opt_fd(buf) {
                Ok(x) => x,
                Err(e) => {
                    return Err(e);
                },
            };
            let ptr = match pop_u64(buf) {
                Ok(x) => x,
                Err(e) => {
                    return Err(e);
                },
            };
            let mode = match pop_u32(buf) {
                Ok(x) => x,
                Err(e) => {
                    return Err(e);
                },
            };
            Ok(MessageFromSand {
                task: VPid(task),
                op: FromSand::FileAccess {
                    dir,
                    path: VString(VPtr(ptr)),
                    mode: bits_to_i32(mode),
                },
            })
        } else if tag == 3 {
            let file = match pop_opt_fd(buf) {
                Ok(x) => x,
                Err(e) => {
                    return Err(e);
                },
            };
            let t = match pop_u8(buf) {
                Ok(x) => x,
                Err(e) => {
                    return Err(e);
                },
            };
            let path = if t == 0 {
                None
            } else if t == 1 {
                let ptr = match pop_u64(buf) {
                    Ok(x) => x,
                    Err(e) => {
                        return Err(e);
                    },
                };
                Some(VString(VPtr(ptr)))
            } else {
                return Err(BufferError::InvalidValue);
            };
            let nofollow = match pop_bool(buf) {
                Ok(x) => x,
                Err(e) => {
                    return Err(e);
                },
            };
            Ok(MessageFromSand {
                task: VPid(task),
                op: FromSand::FileStat { file, path, nofollow },
            })
        } else if tag == 4 {
            let ptr = match pop_u64(buf) {
                Ok(x) => x,
                Err(e) => {
                    return Err(e);
                },
            };
            let sz = match pop_u64(buf) {
                Ok(x) => x,
                Err(e) => {
                    return Err(e);
                },
            };
            Ok(MessageFromSand {
                task: VPid(task),
                op: FromSand::GetWorkingDir(VString(VPtr(ptr)), sz),
            })
        } else if tag == 5 {
            let ptr = match pop_u64(buf) {
                Ok(x) => x,
                Err(e) => {
                    return Err(e);
                },
            };
            Ok(MessageFromSand {
                task: VPid(task),
                op: FromSand::ChangeWorkingDir(VString(VPtr(ptr))),
            })
        } else if tag == 6 {
            let lt = match pop_u8(buf) {
                Ok(x) => x,
                Err(e) => {
                    return Err(e);
                },
            };
            let lv = if lt == 0 {
                LogLevel::Error
            } else if lt == 1 {
                LogLevel::Warn
            } else if lt == 2 {
                LogLevel::Info
            } else if lt == 3 {
                LogLevel::Debug
            } else if lt == 4 {
                LogLevel::Trace
            } else {
                return Err(BufferError::InvalidValue);
            };
            let mt = match pop_u8(buf) {
                Ok(x) => x,
                Err(e) => {
                    return Err(e);
                },
            };
            let msg = if mt == 0 {
                match pop_rec(buf) {
                    Ok(r) => LogMessage::Emulated(r),
                    Err(e) => {
                        return Err(e);
                    },
                }
            } else if mt == 1 {
                match pop_rec(buf) {
                    Ok(r) => LogMessage::Remote(r),
                    Err(e) => {
                        return Err(e);
                    },
                }
            } else if mt == 2 {
                match pop_u32(buf) {
                    Ok(x) => LogMessage::Signal(x),
                    Err(e) => {
                        return Err(e);
                    },
                }
            } else {
                return Err(BufferError::InvalidValue);
            };
            Ok(MessageFromSand { task: VPid(task), op: FromSand::Log(lv, msg) })
        } else if tag == 7 {
            let c = match pop_u32(buf) {
                Ok(x) => x,
                Err(e) => {
                    return Err(e);
                },
            };
            Ok(MessageFromSand { task: VPid(task), op: FromSand::Exited(c) })
        } else {
            Err(BufferError::InvalidValue)
        }
    }
}


impl IPCBuffer {
    /// Append a 32-bit scalar, little-endian; all or nothing.
    pub fn push_back_u32(&mut self, x: u32) -> (r: Result<(), BufferError>)
        requires
            old(self).inv(),
        ensures
            final(self).inv(),
            final(self)@.consumed_bytes == old(self)@.consumed_bytes,
            final(self)@.consumed_files == old(self)@.consumed_files,
            old(self)@.consumed_bytes + old(self)@.bytes.len() + 4 <= BYTES_MAX ==> r is Ok
                && final(self)@.bytes == old(self)@.bytes + le32(x) && final(self)@.files == old(
                self,
            )@.files,
            old(self)@.consumed_bytes + old(self)@.bytes.len() + 4 > BYTES_MAX ==> r
                == Result::<(), BufferError>::Err(BufferError::BufferFull) && final(self)@
                == old(self)@,
    {
        if self.byte_room() < 4 {
            return Err(BufferError::BufferFull);
        }
        push_u32(self, x);
        Ok(())
    }

    /// Append a 64-bit scalar, little-endian; all or nothing.
    pub fn push_back_u64(&mut self, x: u64) -> (r: Result<(), BufferError>)
        requires
            old(self).inv(),
        ensures
            final(self).inv(),
            final(self)@.consumed_bytes == old(self)@.consumed_bytes,
            final(self)@.consumed_files == old(self)@.consumed_files,
            old(self)@.consumed_bytes + old(self)@.bytes.len() + 8 <= BYTES_MAX ==> r is Ok
                && final(self)@.bytes == old(self)@.bytes + le64(x) && final(self)@.files == old(
                self,
            )@.files,
            old(self)@.consumed_bytes + old(self)@.bytes.len() + 8 > BYTES_MAX ==> r
                == Result::<(), BufferError>::Err(BufferError::BufferFull) && final(self)@
                == old(self)@,
    {
        if self.byte_room() < 8 {
            return Err(BufferError::BufferFull);
        }
        push_u64(self, x);
        Ok(())
    }

    /// Append a signed 32-bit scalar as its two's-complement bits.
    pub fn push_back_i32(&mut self, x: i32) -> (r: Result<(), BufferError>)
        requires
            old(self).inv(),
        ensures
            final(self).inv(),
            final(self)@.consumed_bytes == old(self)@.consumed_bytes,
            final(self)@.consumed_files == old(self)@.consumed_files,
            old(self)@.consumed_bytes + old(self)@.bytes.len() + 4 <= BYTES_MAX ==> r is Ok
                && final(self)@.bytes == old(self)@.bytes + le32(i32_bits(x)) && final(self)@.files
                == old(self)@.files,
            old(self)@.consumed_bytes + old(self)@.bytes.len() + 4 > BYTES_MAX ==> r
                == Result::<(), BufferError>::Err(BufferError::BufferFull) && final(self)@
                == old(self)@,
    {
        self.push_back_u32(i32_to_bits(x))
    }

    /// Append a boolean as one byte.
    pub fn push_back_bool(&mut self, v: bool) -> (r: Result<(), BufferError>)
        requires
            old(self).inv(),
        ensures
            final(self).inv(),
            final(self)@.consumed_bytes == old(self)@.consumed_bytes,
            final(self)@.consumed_files == old(self)@.consumed_files,
            old(self)@.consumed_bytes + old(self)@.bytes.len() + 1 <= BYTES_MAX ==> r is Ok
                && final(self)@.bytes == old(self)@.bytes + enc_bool(v) && final(self)@.files
                == old(self)@.files,
            old(self)@.consumed_bytes + old(self)@.bytes.len() + 1 > BYTES_MAX ==> r
                == Result::<(), BufferError>::Err(BufferError::BufferFull) && final(self)@
                == old(self)@,
    {
        let r = self.push_back_byte(
            if v {
                1
            } else {
                0
            },
        );
        proof {
            if old(self)@.consumed_bytes + old(self)@.bytes.len() + 1 <= BYTES_MAX {
                assert(self@.bytes =~= old(self)@.bytes + enc_bool(v));
            }
        }
        r
    }

    /// Characters have no wire form in this codec.
    pub fn push_back_char(&mut self, c: char) -> (r: Result<(), BufferError>)
        ensures
            r == Result::<(), BufferError>::Err(BufferError::Unimplemented),
            final(self)@ == old(self)@,
    {
        Err(BufferError::Unimplemented)
    }

    /// Strings have no wire form in this codec.
    pub fn push_back_str(&mut self, s: &str) -> (r: Result<(), BufferError>)
        ensures
            r == Result::<(), BufferError>::Err(BufferError::Unimplemented),
            final(self)@ == old(self)@,
    {
        Err(BufferError::Unimplemented)
    }

    /// Read a 32-bit scalar from the front.
    pub fn pop_front_u32(&mut self) -> (r: Result<u32, BufferError>)
        requires
            old(self).inv(),
        ensures
            final(self).inv(),
            final(self)@.files == old(self)@.files,
            final(self)@.consumed_files == old(self)@.consumed_files,
            match dec_u32(old(self)@.bytes) {
                Ok((x, rest)) => r == Result::<u32, BufferError>::Ok(x) && final(self)@.bytes
                    == rest && final(self)@.consumed_bytes == old(self)@.consumed_bytes + 4,
                Err(e) => r == Result::<u32, BufferError>::Err(e) && final(self)@ == old(self)@,
            },
    {
        if self.unread_byte_len() < 4 {
            return Err(BufferError::UnexpectedEnd);
        }
        let ghost b = self@.bytes;
        let b0 = match self.pop_front_byte() {
            Ok(x) => x,
            Err(e) => {
                return Err(e);
            },
        };
        let b1 = match self.pop_front_byte() {
            Ok(x) => x,
            Err(e) => {
                return Err(e);
            },
        };
        let b2 = match self.pop_front_byte() {
            Ok(x) => x,
            Err(e) => {
                return Err(e);
            },
        };
        let b3 = match self.pop_front_byte() {
            Ok(x) => x,
            Err(e) => {
                return Err(e);
            },
        };
        proof {
            assert(b.skip(1).skip(1) =~= b.skip(2));
            assert(b.skip(2).skip(1) =~= b.skip(3));
            assert(b.skip(3).skip(1) =~= b.skip(4));
            assert(b.skip(1)[0] == b[1] && b.skip(2)[0] == b[2] && b.skip(3)[0] == b[3]);
        }
        Ok(u32_join(b0, b1, b2, b3))
    }

    /// Read a 64-bit scalar from the front.
    pub fn pop_front_u64(&mut self) -> (r: Result<u64, BufferError>)
        requires
            old(self).inv(),
        ensures
            final(self).inv(),
            final(self)@.files == old(self)@.files,
            final(self)@.consumed_files == old(self)@.consumed_files,
            match dec_u64(old(self)@.bytes) {
                Ok((x, rest)) => r == Result::<u64, BufferError>::Ok(x) && final(self)@.bytes
                    == rest && final(self)@.consumed_bytes == old(self)@.consumed_bytes + 8,
                Err(e) => r == Result::<u64, BufferError>::Err(e) && final(self)@ == old(self)@,
            },
    {
        if self.unread_byte_len() < 8 {
            return Err(BufferError::UnexpectedEnd);
        }
        let ghost b = self@.bytes;
        let b0 = match self.pop_front_byte() {
            Ok(x) => x,
            Err(e) => {
                return Err(e);
            },
        };
        let b1 = match self.pop_front_byte() {
            Ok(x) => x,
            Err(e) => {
                return Err(e);
            },
        };
        let b2 = match self.pop_front_byte() {
            Ok(x) => x,
            Err(e) => {
                return Err(e);
            },
        };
        let b3 = match self.pop_front_byte() {
            Ok(x) => x,
            Err(e) => {
                return Err(e);
            },
        };
        let b4 = match self.pop_front_byte() {
            Ok(x) => x,
            Err(e) => {
                return Err(e);
            },
        };
        let b5 = match self.pop_front_byte() {
            Ok(x) => x,
            Err(e) => {
                return Err(e);
            },
        };
        let b6 = match self.pop_front_byte() {
            Ok(x) => x,
            Err(e) => {
                return Err(e);
            },
        };
        let b7 = match self.pop_front_byte() {
            Ok(x) => x,
            Err(e) => {
                return Err(e);
            },
        };
        proof {
            assert(b.skip(1).skip(1) =~= b.skip(2));
            assert(b.skip(2).skip(1) =~= b.skip(3));
            assert(b.skip(3).skip(1) =~= b.skip(4));
            assert(b.skip(4).skip(1) =~= b.skip(5));
            assert(b.skip(5).skip(1) =~= b.skip(6));
            assert(b.skip(6).skip(1) =~= b.skip(7));
            assert(b.skip(7).skip(1) =~= b.skip(8));
            assert(b.skip(1)[0] == b[1] && b.skip(2)[0] == b[2] && b.skip(3)[0] == b[3]
                && b.skip(4)[0] == b[4] && b.skip(5)[0] == b[5] && b.skip(6)[0] == b[6]
                && b.skip(7)[0] == b[7]);
        }
        Ok(u64_join(b0, b1, b2, b3, b4, b5, b6, b7))
    }

    /// Read a signed 32-bit scalar from the front.
    pub fn pop_front_i32(&mut self) -> (r: Result<i32, BufferError>)
        requires
            old(self).inv(),
        ensures
            final(self).inv(),
            final(self)@.files == old(self)@.files,
            final(self)@.consumed_files == old(self)@.consumed_files,
            match dec_u32(old(self)@.bytes) {
                Ok((x, rest)) => r == Result::<i32, BufferError>::Ok(i32_of_bits(x))
                    && final(self)@.bytes == rest && final(self)@.consumed_bytes == old(
                    self,
                )@.consumed_bytes + 4,
                Err(e) => r == Result::<i32, BufferError>::Err(e) && final(self)@ == old(self)@,
            },
    {
        match self.pop_front_u32() {
            Ok(x) => Ok(bits_to_i32(x)),
            Err(e) => Err(e),
        }
    }
}

/// Serialize a descriptor result: a tag byte, then either the descriptor
/// out of band or the error's wire bits.
pub fn encode_fd_result(res: &Result<SysFd, Errno>, buf: &mut IPCBuffer)
    -> (r: Result<(), BufferError>)
    requires
        old(buf).inv(),
    ensures
        final(buf).inv(),
        final(buf)@.consumed_bytes == old(buf)@.consumed_bytes,
        final(buf)@.consumed_files == old(buf)@.consumed_files,
        r is Ok ==> final(buf)@.bytes == old(buf)@.bytes + enc_result_fd_bytes(*res)
            && final(buf)@.files == old(buf)@.files + enc_result_fd_files(*res),
        r is Err ==> r == Result::<(), BufferError>::Err(BufferError::BufferFull)
            && final(buf)@ == old(buf)@,
        r is Ok <==> (old(buf)@.consumed_bytes + old(buf)@.bytes.len()
            + enc_result_fd_bytes(*res).len() <= BYTES_MAX && old(buf)@.consumed_files
            + old(buf)@.files.len() + enc_result_fd_files(*res).len() <= FILES_MAX),
{
    match res {
        Ok(fd) => {
            if buf.byte_room() < 1 || buf.file_room() < 1 {
                return Err(BufferError::BufferFull);
            }
            push_u8(buf, 0);
            push_fd(buf, fd.0);
            proof {
                assert(final(buf)@.bytes =~= old(buf)@.bytes + enc_result_fd_bytes(*res));
                assert(final(buf)@.files =~= old(buf)@.files + enc_result_fd_files(*res));
            }
            Ok(())
        },
        Err(e) => {
            proof {
                lemma_le32_len(i32_bits(e.0));
                old(buf).lemma_inv_bounds();
            }
            if buf.byte_room() < 5 {
                return Err(BufferError::BufferFull);
            }
            push_u8(buf, 1);
            push_u32(buf, i32_to_bits(e.0));
            proof {
                assert(final(buf)@.bytes =~= old(buf)@.bytes + enc_result_fd_bytes(*res));
                assert(final(buf)@.files =~= old(buf)@.files + enc_result_fd_files(*res));
            }
            Ok(())
        },
    }
}

/// Deserialize a descriptor result.
pub fn decode_fd_result(buf: &mut IPCBuffer) -> (r: Result<Result<SysFd, Errno>, BufferError>)
    requires
        old(buf).inv(),
    ensures
        final(buf).inv(),
        match dec_result_fd(old(buf)@.bytes, old(buf)@.files) {
            Ok((res, rb, rf)) => r == Result::<Result<SysFd, Errno>, BufferError>::Ok(res)
                && final(buf)@.bytes == rb && final(buf)@.files == rf,
            Err(e) => r == Result::<Result<SysFd, Errno>, BufferError>::Err(e),
        },
{
    let t = match pop_u8(buf) {
        Ok(x) => x,
        Err(e) => {
            return Err(e);
        },
    };
    if t == 0 {
        let fd = match pop_fd(buf) {
            Ok(x) => x,
            Err(e) => {
                return Err(e);
            },
        };
        Ok(Ok(SysFd(fd)))
    } else if t == 1 {
        let x = match pop_u32(buf) {
            Ok(x) => x,
            Err(e) => {
                return Err(e);
            },
        };
        Ok(Err(Errno(bits_to_i32(x))))
    } else {
        Err(BufferError::InvalidValue)
    }
}

} // verus!
