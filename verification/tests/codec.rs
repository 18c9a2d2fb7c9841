//! Wire-codec behavior: scalar encodings, out-of-band descriptors, and
//! message round trips.

use bandsocks::buffer::{BufferError, IPCBuffer};
use bandsocks::protocol::{
    Errno, FileStat, FromSand, LogLevel, LogMessage, MessageFromSand, MessageToSand,
    ProcessHandle, SysFd, SysPid, SyscallRecord, ToSand, VPid, VPtr, VString,
};
use bandsocks::vfs::Stat;

#[test]
fn u32() {
    let mut buf = IPCBuffer::new();
    buf.push_back_u32(0x12345678u32).unwrap();
    assert_eq!(buf.unread_bytes(), vec![0x78, 0x56, 0x34, 0x12]);
    assert_eq!(buf.unread_files(), Vec::<u32>::new());
    assert_eq!(buf.pop_front_u32().unwrap(), 0x12345678);
    assert!(buf.is_empty());
}

#[test]
fn u8() {
    let mut buf = IPCBuffer::new();
    buf.push_back_byte(0x42u8).unwrap();
    assert_eq!(buf.unread_bytes(), vec![0x42]);
    assert_eq!(buf.unread_files(), Vec::<u32>::new());
    assert_eq!(buf.pop_front_byte().unwrap(), 0x42);
    assert!(buf.is_empty());
}

#[test]
fn u64() {
    let mut buf = IPCBuffer::new();
    buf.push_back_u64(0x12345678abcdabbau64).unwrap();
    assert_eq!(
        buf.unread_bytes(),
        vec![0xba, 0xab, 0xcd, 0xab, 0x78, 0x56, 0x34, 0x12]
    );
    assert_eq!(buf.pop_front_u64().unwrap(), 0x12345678abcdabbau64);
    assert!(buf.is_empty());
}

#[test]
fn i32() {
    let mut buf = IPCBuffer::new();
    buf.push_back_i32(-1i32).unwrap();
    assert_eq!(buf.unread_bytes(), vec![0xff, 0xff, 0xff, 0xff]);
    assert_eq!(buf.pop_front_i32().unwrap(), -1);
    assert!(buf.is_empty());
}

#[test]
fn no_char() {
    let mut buf = IPCBuffer::new();
    assert_eq!(buf.push_back_char('\u{e01}'), Err(BufferError::Unimplemented));
}

#[test]
fn no_str() {
    let mut buf = IPCBuffer::new();
    assert_eq!(buf.push_back_str("yo"), Err(BufferError::Unimplemented));
}

#[test]
fn fixed_len_bytes() {
    let mut buf = IPCBuffer::new();
    buf.push_back_bool(true).unwrap();
    buf.extend_bytes(&[98, 108, 97, 104]).unwrap();
    assert_eq!(buf.unread_bytes(), vec![1, 98, 108, 97, 104]);
    assert_eq!(buf.unread_files(), Vec::<u32>::new());
    assert_eq!(buf.pop_front_byte().unwrap(), 1);
    let mut back = Vec::new();
    for _ in 0..4 {
        back.push(buf.pop_front_byte().unwrap());
    }
    assert_eq!(back, b"blah".to_vec());
    assert!(buf.is_empty());
}

#[test]
fn vptr() {
    let mut buf = IPCBuffer::new();
    buf.push_back_u64(VPtr(0x1122334455667788).0).unwrap();
    assert_eq!(
        buf.unread_bytes(),
        vec![0x88, 0x77, 0x66, 0x55, 0x44, 0x33, 0x22, 0x11]
    );
    assert_eq!(VPtr(buf.pop_front_u64().unwrap()), VPtr(0x1122334455667788));
    assert!(buf.is_empty());
}

#[test]
fn sysfd() {
    let mut buf = IPCBuffer::new();
    buf.push_back_file(SysFd(0x87654321).0).unwrap();
    assert_eq!(buf.unread_bytes(), Vec::<u8>::new());
    assert_eq!(buf.unread_files(), vec![0x87654321]);
    assert_eq!(SysFd(buf.pop_front_file().unwrap()), SysFd(0x87654321));
    assert!(buf.is_empty());
}

#[test]
fn sysfd_multi() {
    let mut buf = IPCBuffer::new();
    let msg = [SysFd(5), SysFd(6), SysFd(7), SysFd(8)];
    for fd in &msg {
        buf.push_back_file(fd.0).unwrap();
    }
    assert_eq!(buf.unread_bytes(), Vec::<u8>::new());
    assert_eq!(buf.unread_files(), vec![5, 6, 7, 8]);
    for fd in &msg {
        assert_eq!(SysFd(buf.pop_front_file().unwrap()), *fd);
    }
    assert!(buf.is_empty());
}

#[test]
fn sysfd_result_ok() {
    let mut buf = IPCBuffer::new();
    let msg: Result<SysFd, Errno> = Ok(SysFd(0x12341122));
    bandsocks::protocol::encode_fd_result(&msg, &mut buf).unwrap();
    assert_eq!(buf.unread_bytes(), vec![0]);
    assert_eq!(buf.unread_files(), vec![0x12341122]);
    assert_eq!(bandsocks::protocol::decode_fd_result(&mut buf).unwrap(), msg);
    assert!(buf.is_empty());
}

#[test]
fn sysfd_result_err() {
    let mut buf = IPCBuffer::new();
    let msg: Result<SysFd, Errno> = Err(Errno(-1));
    bandsocks::protocol::encode_fd_result(&msg, &mut buf).unwrap();
    assert_eq!(buf.unread_bytes(), vec![1, 0xff, 0xff, 0xff, 0xff]);
    assert_eq!(buf.unread_files(), Vec::<u32>::new());
    assert_eq!(bandsocks::protocol::decode_fd_result(&mut buf).unwrap(), msg);
    assert!(buf.is_empty());
}

#[test]
fn message_to_sand_roundtrip() {
    let cases = vec![
        MessageToSand { task: VPid(1), op: ToSand::OpenProcessReply(ProcessHandle(9)) },
        MessageToSand { task: VPid(2), op: ToSand::Reply(Ok(())) },
        MessageToSand { task: VPid(3), op: ToSand::Reply(Err(Errno(-2))) },
        MessageToSand { task: VPid(4), op: ToSand::FileReply(Ok(SysFd(11))) },
        MessageToSand { task: VPid(5), op: ToSand::FileReply(Err(Errno(-13))) },
        MessageToSand {
            task: VPid(6),
            op: ToSand::FileStatReply(Ok(FileStat {
                stat: Stat { mode: 0o644, uid: 1, gid: 2, mtime: 3, nlink: 4, size: 5 },
            })),
        },
        MessageToSand { task: VPid(7), op: ToSand::SizeReply(Ok(99)) },
        MessageToSand { task: VPid(8), op: ToSand::Init { args: SysFd(33) } },
    ];
    for m in &cases {
        let mut buf = IPCBuffer::new();
        m.encode(&mut buf).unwrap();
        let back = MessageToSand::decode(&mut buf).unwrap();
        assert_eq!(back, *m);
        assert!(buf.is_empty());
    }
}

#[test]
fn message_from_sand_roundtrip() {
    let rec = SyscallRecord {
        nr: 1,
        arg0: -2,
        arg1: 3,
        arg2: -4,
        arg3: 5,
        arg4: -6,
        arg5: 7,
        ret: -8,
    };
    let cases = vec![
        MessageFromSand { task: VPid(1), op: FromSand::OpenProcess(SysPid(900)) },
        MessageFromSand {
            task: VPid(2),
            op: FromSand::FileOpen {
                dir: Some(SysFd(4)),
                path: VString(VPtr(0xdead)),
                flags: 0,
                mode: 0o644,
            },
        },
        MessageFromSand {
            task: VPid(3),
            op: FromSand::FileAccess { dir: None, path: VString(VPtr(0xbeef)), mode: 4 },
        },
        MessageFromSand {
            task: VPid(4),
            op: FromSand::FileStat {
                file: None,
                path: Some(VString(VPtr(0x77))),
                nofollow: true,
            },
        },
        MessageFromSand {
            task: VPid(5),
            op: FromSand::GetWorkingDir(VString(VPtr(0x1000)), 256),
        },
        MessageFromSand { task: VPid(6), op: FromSand::ChangeWorkingDir(VString(VPtr(0x2000))) },
        MessageFromSand {
            task: VPid(7),
            op: FromSand::Log(LogLevel::Debug, LogMessage::Emulated(rec)),
        },
        MessageFromSand {
            task: VPid(8),
            op: FromSand::Log(LogLevel::Error, LogMessage::Signal(11)),
        },
        MessageFromSand { task: VPid(9), op: FromSand::Exited(3) },
    ];
    for m in &cases {
        let mut buf = IPCBuffer::new();
        m.encode(&mut buf).unwrap();
        let back = MessageFromSand::decode(&mut buf).unwrap();
        assert_eq!(back, *m);
        assert!(buf.is_empty());
    }
}

#[test]
fn two_messages_in_order() {
    let m1 = MessageFromSand { task: VPid(1), op: FromSand::OpenProcess(SysPid(42)) };
    let m2 = MessageFromSand {
        task: VPid(1),
        op: FromSand::FileOpen {
            dir: Some(SysFd(3)),
            path: VString(VPtr(0x10)),
            flags: 2,
            mode: 0,
        },
    };
    let mut buf = IPCBuffer::new();
    m1.encode(&mut buf).unwrap();
    m2.encode(&mut buf).unwrap();
    assert_eq!(MessageFromSand::decode(&mut buf).unwrap(), m1);
    assert_eq!(MessageFromSand::decode(&mut buf).unwrap(), m2);
    assert!(buf.is_empty());
}

#[test]
fn decode_short_buffer() {
    let mut buf = IPCBuffer::new();
    buf.push_back_byte(7).unwrap();
    assert_eq!(
        MessageToSand::decode(&mut buf),
        Err(BufferError::UnexpectedEnd)
    );
}

#[test]
fn decode_bad_tag() {
    let mut buf = IPCBuffer::new();
    buf.push_back_u32(1).unwrap();
    buf.push_back_byte(200).unwrap();
    assert_eq!(
        MessageToSand::decode(&mut buf),
        Err(BufferError::InvalidValue)
    );
}

#[test]
fn buffer_capacity() {
    let mut buf = IPCBuffer::new();
    assert_eq!(buf.byte_capacity(), 128);
    for _ in 0..16 {
        buf.push_back_u64(0).unwrap();
    }
    assert_eq!(buf.push_back_byte(1), Err(BufferError::BufferFull));
    let m = MessageFromSand { task: VPid(1), op: FromSand::Exited(0) };
    assert_eq!(m.encode(&mut buf), Err(BufferError::BufferFull));
    buf.reset();
    assert!(buf.is_empty());
    m.encode(&mut buf).unwrap();
    assert_eq!(MessageFromSand::decode(&mut buf).unwrap(), m);
}

#[test]
fn load_bytes_replays_wire() {
    let m = MessageFromSand { task: VPid(12), op: FromSand::Exited(7) };
    let mut buf = IPCBuffer::new();
    m.encode(&mut buf).unwrap();
    let wire = buf.unread_bytes();
    let mut rx = IPCBuffer::new();
    rx.load_bytes(&wire).unwrap();
    assert_eq!(MessageFromSand::decode(&mut rx).unwrap(), m);
    assert!(rx.is_empty());
}
