//! Fixed-capacity IPC buffer: a byte queue and a file-descriptor queue
//! with compile-time capacities, so the guest-side code can run without
//! dynamic allocation. Serialized messages are appended at the back and
//! consumed from the front.

use vstd::prelude::*;

verus! {

/// Failure of buffer or codec operations.
#[derive(Debug, Clone, Copy, PartialEq, Eq, Structural)]
pub enum BufferError {
    /// The codec does not support the requested shape of data.
    Unimplemented,
    /// The buffer ended inside a value.
    UnexpectedEnd,
    /// A fixed-capacity queue cannot take more.
    BufferFull,
    /// A tag or scalar held a value outside its range.
    InvalidValue,
}

/// Byte capacity of an IPC buffer.
pub const BYTES_MAX: usize = 128;

/// File-descriptor capacity of an IPC buffer.
pub const FILES_MAX: usize = 8;

/// The bytes a bounded byte queue holds, front to back.
pub uninterp spec fn byte_queue_seq(v: heapless::Vec<u8, 128>) -> Seq<u8>;

/// The raw descriptor numbers a bounded descriptor queue holds, front to
/// back.
pub uninterp spec fn file_queue_seq(v: heapless::Vec<u32, 8>) -> Seq<u32>;

#[verifier::external_type_specification]
#[verifier::external_body]
#[verifier::reject_recursive_types(T)]
pub struct ExHeaplessVec<T, const N: usize>(heapless::Vec<T, N>);

/// Relies on heapless::Vec::new: a new vector is empty.
#[verifier::external_body]
fn byte_queue_new() -> (v: heapless::Vec<u8, 128>)
    ensures
        byte_queue_seq(v) == Seq::<u8>::empty(),
{
    heapless::Vec::new()
}

/// Relies on heapless::Vec::push: appends below the capacity of 128,
/// otherwise returns the item and changes nothing.
#[verifier::external_body]
fn byte_queue_push(v: &mut heapless::Vec<u8, 128>, b: u8) -> (r: Result<(), u8>)
    ensures
        byte_queue_seq(*old(v)).len() < 128 ==> r is Ok && byte_queue_seq(*final(v))
            == byte_queue_seq(*old(v)).push(b),
        byte_queue_seq(*old(v)).len() >= 128 ==> r is Err && byte_queue_seq(*final(v))
            == byte_queue_seq(*old(v)),
{
    v.push(b)
}

/// Relies on heapless::Vec::clear: removes every element.
#[verifier::external_body]
fn byte_queue_clear(v: &mut heapless::Vec<u8, 128>)
    ensures
        byte_queue_seq(*final(v)) == Seq::<u8>::empty(),
{
    v.clear()
}

/// Relies on heapless::Vec::as_slice: a view of every element in order.
#[verifier::external_body]
fn byte_queue_slice(v: &heapless::Vec<u8, 128>) -> (r: &[u8])
    ensures
        r@ == byte_queue_seq(*v),
{
    v.as_slice()
}

/// Relies on heapless::Vec::new: a new vector is empty.
#[verifier::external_body]
fn file_queue_new() -> (v: heapless::Vec<u32, 8>)
    ensures
        file_queue_seq(v) == Seq::<u32>::empty(),
{
    heapless::Vec::new()
}

/// Relies on heapless::Vec::push: appends below the capacity of 8,
/// otherwise returns the item and changes nothing.
#[verifier::external_body]
fn file_queue_push(v: &mut heapless::Vec<u32, 8>, f: u32) -> (r: Result<(), u32>)
    ensures
        file_queue_seq(*old(v)).len() < 8 ==> r is Ok && file_queue_seq(*final(v))
            == file_queue_seq(*old(v)).push(f),
        file_queue_seq(*old(v)).len() >= 8 ==> r is Err && file_queue_seq(*final(v))
            == file_queue_seq(*old(v)),
{
    v.push(f)
}

/// Relies on heapless::Vec::clear: removes every element.
#[verifier::external_body]
fn file_queue_clear(v: &mut heapless::Vec<u32, 8>)
    ensures
        file_queue_seq(*final(v)) == Seq::<u32>::empty(),
{
    v.clear()
}

/// Relies on heapless::Vec::as_slice: a view of every element in order.
#[verifier::external_body]
fn file_queue_slice(v: &heapless::Vec<u32, 8>) -> (r: &[u32])
    ensures
        r@ == file_queue_seq(*v),
{
    v.as_slice()
}

/// The mathematical image of an IPC buffer: the unread remainders of both
/// queues and how much of each was already consumed.
pub struct IPCBufferView {
    pub bytes: Seq<u8>,
    pub files: Seq<u32>,
    pub consumed_bytes: nat,
    pub consumed_files: nat,
}

/// A bounded serialization buffer carrying message bytes and out-of-band
/// file descriptors.
pub struct IPCBuffer {
    bytes: heapless::Vec<u8, 128>,
    files: heapless::Vec<u32, 8>,
    byte_offset: usize,
    file_offset: usize,
}

impl View for IPCBuffer {
    type V = IPCBufferView;

    closed spec fn view(&self) -> IPCBufferView {
        IPCBufferView {
            bytes: byte_queue_seq(self.bytes).skip(self.byte_offset as int),
            files: file_queue_seq(self.files).skip(self.file_offset as int),
            consumed_bytes: self.byte_offset as nat,
            consumed_files: self.file_offset as nat,
        }
    }
}

impl IPCBuffer {
    /// The read offsets never pass the ends, and the queues respect their
    /// capacities.
    pub closed spec fn inv(&self) -> bool {
        &&& self.byte_offset <= byte_queue_seq(self.bytes).len() <= 128
        &&& self.file_offset <= file_queue_seq(self.files).len() <= 8
    }

    /// What the invariant guarantees of the view: neither queue ever
    /// holds more than its capacity, consumed part included.
    pub proof fn lemma_inv_bounds(&self)
        requires
            self.inv(),
        ensures
            self@.consumed_bytes + self@.bytes.len() <= BYTES_MAX,
            self@.consumed_files + self@.files.len() <= FILES_MAX,
    {
    }

    /// An empty buffer.
    pub fn new() -> (r: IPCBuffer)
        ensures
            r.inv(),
            r@.bytes == Seq::<u8>::empty(),
            r@.files == Seq::<u32>::empty(),
            r@.consumed_bytes == 0 && r@.consumed_files == 0,
    {
        let r = IPCBuffer {
            bytes: byte_queue_new(),
            files: file_queue_new(),
            byte_offset: 0,
            file_offset: 0,
        };
        proof {
            assert(r@.bytes =~= Seq::<u8>::empty());
            assert(r@.files =~= Seq::<u32>::empty());
        }
        r
    }

    /// Empty the buffer and rewind both read offsets.
    pub fn reset(&mut self)
        ensures
            final(self).inv(),
            final(self)@.bytes == Seq::<u8>::empty(),
            final(self)@.files == Seq::<u32>::empty(),
            final(self)@.consumed_bytes == 0 && final(self)@.consumed_files == 0,
    {
        byte_queue_clear(&mut self.bytes);
        file_queue_clear(&mut self.files);
        self.byte_offset = 0;
        self.file_offset = 0;
        proof {
            assert(self@.bytes =~= Seq::<u8>::empty());
            assert(self@.files =~= Seq::<u32>::empty());
        }
    }

    /// How many more bytes the storage can take.
    pub fn byte_room(&self) -> (r: usize)
        requires
            self.inv(),
        ensures
            r as nat == BYTES_MAX - self@.consumed_bytes - self@.bytes.len(),
    {
        BYTES_MAX - byte_queue_slice(&self.bytes).len()
    }

    /// How many more file descriptors the storage can take.
    pub fn file_room(&self) -> (r: usize)
        requires
            self.inv(),
        ensures
            r as nat == FILES_MAX - self@.consumed_files - self@.files.len(),
    {
        FILES_MAX - file_queue_slice(&self.files).len()
    }

    /// How many bytes remain unread.
    pub fn unread_byte_len(&self) -> (r: usize)
        requires
            self.inv(),
        ensures
            r as nat == self@.bytes.len(),
    {
        byte_queue_slice(&self.bytes).len() - self.byte_offset
    }

    /// How many file descriptors remain unread.
    pub fn unread_file_len(&self) -> (r: usize)
        requires
            self.inv(),
        ensures
            r as nat == self@.files.len(),
    {
        file_queue_slice(&self.files).len() - self.file_offset
    }

    /// The fixed byte capacity.
    pub fn byte_capacity(&self) -> (r: usize)
        ensures
            r == BYTES_MAX,
    {
        BYTES_MAX
    }

    /// Whether everything has been consumed.
    pub fn is_empty(&self) -> (r: bool)
        requires
            self.inv(),
        ensures
            r == (self@.bytes.len() == 0 && self@.files.len() == 0),
    {
        let nb = byte_queue_slice(&self.bytes).len();
        let nf = file_queue_slice(&self.files).len();
        self.byte_offset == nb && self.file_offset == nf
    }

    /// Append one byte at the back.
    pub fn push_back_byte(&mut self, data: u8) -> (r: Result<(), BufferError>)
        requires
            old(self).inv(),
        ensures
            final(self).inv(),
            final(self)@.consumed_bytes == old(self)@.consumed_bytes,
            final(self)@.consumed_files == old(self)@.consumed_files,
            final(self)@.files == old(self)@.files,
            old(self)@.consumed_bytes + old(self)@.bytes.len() < BYTES_MAX ==> r is Ok
                && final(self)@.bytes == old(self)@.bytes.push(data),
            old(self)@.consumed_bytes + old(self)@.bytes.len() >= BYTES_MAX ==> r
                == Result::<(), BufferError>::Err(BufferError::BufferFull) && final(self)@
                == old(self)@,
    {
        let ghost pre = byte_queue_seq(self.bytes);
        match byte_queue_push(&mut self.bytes, data) {
            Ok(()) => {
                proof {
                    assert(byte_queue_seq(self.bytes).skip(self.byte_offset as int)
                        =~= pre.skip(self.byte_offset as int).push(data));
                }
                Ok(())
            },
            Err(_) => Err(BufferError::BufferFull),
        }
    }

    /// Append bytes at the back; all or nothing.
    pub fn extend_bytes(&mut self, data: &[u8]) -> (r: Result<(), BufferError>)
        requires
            old(self).inv(),
        ensures
            final(self).inv(),
            final(self)@.consumed_bytes == old(self)@.consumed_bytes,
            final(self)@.consumed_files == old(self)@.consumed_files,
            final(self)@.files == old(self)@.files,
            old(self)@.consumed_bytes + old(self)@.bytes.len() + data@.len() <= BYTES_MAX ==> r
                is Ok && final(self)@.bytes == old(self)@.bytes + data@,
            old(self)@.consumed_bytes + old(self)@.bytes.len() + data@.len() > BYTES_MAX ==> r
                == Result::<(), BufferError>::Err(BufferError::BufferFull) && final(self)@
                == old(self)@,
    {
        let total = byte_queue_slice(&self.bytes).len();
        if data.len() > BYTES_MAX - total {
            proof {
                assert(self@ == old(self)@);
            }
            return Err(BufferError::BufferFull);
        }
        let n = data.len();
        let mut i: usize = 0;
        while i < n
            invariant
                0 <= i <= n,
                n == data@.len(),
                self.inv(),
                byte_queue_seq(self.bytes).len() + (n - i) <= BYTES_MAX,
                self@.consumed_bytes == old(self)@.consumed_bytes,
                self@.consumed_files == old(self)@.consumed_files,
                self@.files == old(self)@.files,
                self@.bytes =~= old(self)@.bytes + data@.take(i as int),
            decreases n - i,
        {
            let r = self.push_back_byte(data[i]);
            proof {
                assert(r is Ok);
                assert(self@.bytes =~= old(self)@.bytes + data@.take(i as int + 1));
            }
            i = i + 1;
        }
        proof {
            assert(data@.take(n as int) =~= data@);
        }
        Ok(())
    }

    /// Append one raw file descriptor at the back.
    pub fn push_back_file(&mut self, file: u32) -> (r: Result<(), BufferError>)
        requires
            old(self).inv(),
        ensures
            final(self).inv(),
            final(self)@.consumed_bytes == old(self)@.consumed_bytes,
            final(self)@.consumed_files == old(self)@.consumed_files,
            final(self)@.bytes == old(self)@.bytes,
            old(self)@.consumed_files + old(self)@.files.len() < FILES_MAX ==> r is Ok
                && final(self)@.files == old(self)@.files.push(file),
            old(self)@.consumed_files + old(self)@.files.len() >= FILES_MAX ==> r
                == Result::<(), BufferError>::Err(BufferError::BufferFull) && final(self)@
                == old(self)@,
    {
        let ghost pre = file_queue_seq(self.files);
        match file_queue_push(&mut self.files, file) {
            Ok(()) => {
                proof {
                    assert(file_queue_seq(self.files).skip(self.file_offset as int)
                        =~= pre.skip(self.file_offset as int).push(file));
                }
                Ok(())
            },
            Err(_) => Err(BufferError::BufferFull),
        }
    }

    /// Read one byte from the front.
    pub fn pop_front_byte(&mut self) -> (r: Result<u8, BufferError>)
        requires
            old(self).inv(),
        ensures
            final(self).inv(),
            final(self)@.consumed_files == old(self)@.consumed_files,
            final(self)@.files == old(self)@.files,
            old(self)@.bytes.len() > 0 ==> r == Result::<u8, BufferError>::Ok(
                old(self)@.bytes[0],
            ) && final(self)@.bytes == old(self)@.bytes.skip(1) && final(self)@.consumed_bytes
                == old(self)@.consumed_bytes + 1,
            old(self)@.bytes.len() == 0 ==> r == Result::<u8, BufferError>::Err(
                BufferError::UnexpectedEnd,
            ) && final(self)@ == old(self)@,
    {
        let s = byte_queue_slice(&self.bytes);
        if self.byte_offset < s.len() {
            let b = s[self.byte_offset];
            self.byte_offset = self.byte_offset + 1;
            proof {
                assert(self@.bytes =~= old(self)@.bytes.skip(1));
            }
            Ok(b)
        } else {
            Err(BufferError::UnexpectedEnd)
        }
    }

    /// Read one raw file descriptor from the front.
    pub fn pop_front_file(&mut self) -> (r: Result<u32, BufferError>)
        requires
            old(self).inv(),
        ensures
            final(self).inv(),
            final(self)@.consumed_bytes == old(self)@.consumed_bytes,
            final(self)@.bytes == old(self)@.bytes,
            old(self)@.files.len() > 0 ==> r == Result::<u32, BufferError>::Ok(
                old(self)@.files[0],
            ) && final(self)@.files == old(self)@.files.skip(1) && final(self)@.consumed_files
                == old(self)@.consumed_files + 1,
            old(self)@.files.len() == 0 ==> r == Result::<u32, BufferError>::Err(
                BufferError::UnexpectedEnd,
            ) && final(self)@ == old(self)@,
    {
        let s = file_queue_slice(&self.files);
        if self.file_offset < s.len() {
            let f = s[self.file_offset];
            self.file_offset = self.file_offset + 1;
            proof {
                assert(self@.files =~= old(self)@.files.skip(1));
            }
            Ok(f)
        } else {
            Err(BufferError::UnexpectedEnd)
        }
    }

    /// Copy the unread bytes out, in order.
    pub fn unread_bytes(&self) -> (r: Vec<u8>)
        requires
            self.inv(),
        ensures
            r@ == self@.bytes,
    {
        let s = byte_queue_slice(&self.bytes);
        let mut out: Vec<u8> = Vec::new();
        let n = s.len();
        let mut i = self.byte_offset;
        while i < n
            invariant
                self.byte_offset <= i <= n,
                n == byte_queue_seq(self.bytes).len(),
                s@ == byte_queue_seq(self.bytes),
                out@ =~= s@.subrange(self.byte_offset as int, i as int),
            decreases n - i,
        {
            out.push(s[i]);
            i = i + 1;
        }
        proof {
            assert(out@ =~= self@.bytes);
        }
        out
    }

    /// Copy the unread file descriptors out, in order.
    pub fn unread_files(&self) -> (r: Vec<u32>)
        requires
            self.inv(),
        ensures
            r@ == self@.files,
    {
        let s = file_queue_slice(&self.files);
        let mut out: Vec<u32> = Vec::new();
        let n = s.len();
        let mut i = self.file_offset;
        while i < n
            invariant
                self.file_offset <= i <= n,
                n == file_queue_seq(self.files).len(),
                s@ == file_queue_seq(self.files),
                out@ =~= s@.subrange(self.file_offset as int, i as int),
            decreases n - i,
        {
            out.push(s[i]);
            i = i + 1;
        }
        proof {
            assert(out@ =~= self@.files);
        }
        out
    }

    /// Refill the buffer with bytes received from a socket: reset, then
    /// append them. Fails when they exceed the capacity.
    pub fn load_bytes(&mut self, data: &[u8]) -> (r: Result<(), BufferError>)
        ensures
            final(self).inv(),
            data@.len() <= BYTES_MAX ==> r is Ok && final(self)@.bytes == data@
                && final(self)@.files == Seq::<u32>::empty()
                && final(self)@.consumed_bytes == 0 && final(self)@.consumed_files == 0,
            data@.len() > BYTES_MAX ==> r == Result::<(), BufferError>::Err(
                BufferError::BufferFull,
            ),
    {
        self.reset();
        let r = self.extend_bytes(data);
        proof {
            if data@.len() <= BYTES_MAX {
                assert(self@.bytes =~= data@);
            }
        }
        r
    }
}

} // verus!
