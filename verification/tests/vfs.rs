//! Virtual-filesystem behavior: path walks, symbolic links, budgets,
//! link counts, and the writer operations.

use bandsocks::vfs::{Filesystem, Limits, Stat, StorageKey, VFile};
use bandsocks::VFSError;

fn stat_mode(mode: u32) -> Stat {
    Stat { mode, uid: 0, gid: 0, mtime: 0, nlink: 0, size: 0 }
}

#[test]
fn root_open() {
    let fs = Filesystem::new();
    let f = fs.open(b"/").unwrap();
    assert!(fs.is_directory(&f));
    assert!(!fs.is_file(&f));
}

#[test]
fn open_root_handle() {
    let fs = Filesystem::new();
    let f = fs.open_root();
    assert_eq!(f.index(), 0);
    assert!(fs.is_directory(&f));
}

#[test]
fn symlink_in_middle() {
    let fs = Filesystem::new();
    let mut w = fs.writer();
    w.write_directory_metadata(b"/a/b", stat_mode(0o755)).unwrap();
    w.write_symlink(b"/link", b"/a", stat_mode(0o777)).unwrap();
    w.write_file(b"/a/b/c", Some(StorageKey(77)), stat_mode(0o644)).unwrap();
    let fs = w.finish();
    let f = fs.open(b"/link/b/c").unwrap();
    assert!(fs.is_file(&f));
    assert_eq!(fs.vfile_storage(&f).unwrap(), Some(StorageKey(77)));
}

#[test]
fn symlink_loop() {
    let fs = Filesystem::new();
    let mut w = fs.writer();
    w.write_symlink(b"/x", b"/y", stat_mode(0o777)).unwrap();
    w.write_symlink(b"/y", b"/x", stat_mode(0o777)).unwrap();
    let fs = w.finish();
    assert_eq!(fs.open(b"/x"), Err(VFSError::SymbolicLinkLimitExceeded));
}

#[test]
fn symlink_tail_follow_vs_nofollow() {
    let fs = Filesystem::new();
    let mut w = fs.writer();
    w.write_file(b"/target", None, stat_mode(0o644)).unwrap();
    w.write_symlink(b"/ln", b"/target", stat_mode(0o777)).unwrap();
    let fs = w.finish();
    let followed = fs.open(b"/ln").unwrap();
    assert!(fs.is_file(&followed));
    let raw = fs.open_nofollow(b"/ln").unwrap();
    assert!(!fs.is_file(&raw));
    assert!(!fs.is_directory(&raw));
    assert_ne!(followed.index(), raw.index());
}

#[test]
fn segment_limit_not_notfound() {
    // A path of far more than a thousand resolvable segments must fail
    // with the segment-limit error, never with a lookup failure.
    let fs = Filesystem::new();
    let mut path = Vec::new();
    for _ in 0..1200 {
        path.push(b'/');
        path.push(b'.');
    }
    assert_eq!(fs.open(&path), Err(VFSError::PathSegmentLimitExceeded));
}

#[test]
fn missing_name() {
    let fs = Filesystem::new();
    assert_eq!(fs.open(b"/nothing"), Err(VFSError::NotFound));
}

#[test]
fn lookup_through_file() {
    let fs = Filesystem::new();
    let mut w = fs.writer();
    w.write_file(b"/f", None, stat_mode(0o644)).unwrap();
    let fs = w.finish();
    assert_eq!(fs.open(b"/f/x"), Err(VFSError::DirectoryExpected));
}

#[test]
fn content_of_directory_refused() {
    let fs = Filesystem::new();
    let root = fs.open(b"/").unwrap();
    assert_eq!(fs.vfile_storage(&root), Err(VFSError::FileExpected));
}

#[test]
fn empty_file_has_no_key() {
    let fs = Filesystem::new();
    let mut w = fs.writer();
    w.write_file(b"/empty", None, stat_mode(0o644)).unwrap();
    let fs = w.finish();
    let f = fs.open(b"/empty").unwrap();
    assert_eq!(fs.vfile_storage(&f).unwrap(), None);
}

#[test]
fn link_counts_maintained() {
    let fs = Filesystem::new();
    let mut w = fs.writer();
    w.write_file(b"/f", Some(StorageKey(1)), stat_mode(0o644)).unwrap();
    w.write_hardlink(b"/g", b"/f").unwrap();
    let fs = w.finish();
    let f = fs.open(b"/f").unwrap();
    let g = fs.open(b"/g").unwrap();
    assert_eq!(f.index(), g.index());
    assert_eq!(fs.vfile_stat(&f).unwrap().nlink, 2);
    // The root holds itself once and is held once by each child's
    // parent entry.
    let root = fs.open(b"/").unwrap();
    assert_eq!(fs.vfile_stat(&root).unwrap().nlink, 1);
}

#[test]
fn child_directory_link_counts() {
    let fs = Filesystem::new();
    let mut w = fs.writer();
    w.write_directory_metadata(b"/d", stat_mode(0o700)).unwrap();
    let fs = w.finish();
    let d = fs.open(b"/d").unwrap();
    // The child holds itself and is held by the root's entry.
    assert_eq!(fs.vfile_stat(&d).unwrap().nlink, 2);
    // The root gains the child's parent entry.
    let root = fs.open(b"/").unwrap();
    assert_eq!(fs.vfile_stat(&root).unwrap().nlink, 2);
}

#[test]
fn directory_metadata_idempotent() {
    let st = Stat { mode: 0o711, uid: 5, gid: 6, mtime: 7, nlink: 0, size: 0 };
    let fs = Filesystem::new();
    let mut w = fs.writer();
    w.write_directory_metadata(b"/a/b/c", st).unwrap();
    let once = w.filesystem().clone();
    w.write_directory_metadata(b"/a/b/c", st).unwrap();
    let twice = w.finish();
    assert_eq!(once, twice);
    let c = twice.open(b"/a/b/c").unwrap();
    let got = twice.vfile_stat(&c).unwrap();
    assert_eq!(got.mode, 0o711);
    assert_eq!(got.uid, 5);
    assert_eq!(got.gid, 6);
    assert_eq!(got.mtime, 7);
}

#[test]
fn metadata_written_and_read_back() {
    let fs = Filesystem::new();
    let mut w = fs.writer();
    let st = Stat { mode: 0o640, uid: 10, gid: 20, mtime: 30, nlink: 99, size: 40 };
    w.write_file(b"/data", Some(StorageKey(5)), st).unwrap();
    let fs = w.finish();
    let f = fs.open(b"/data").unwrap();
    let got = fs.vfile_stat(&f).unwrap();
    assert_eq!(got.mode, 0o640);
    assert_eq!(got.uid, 10);
    assert_eq!(got.size, 40);
    // The link count is maintained by the filesystem, not the caller.
    assert_eq!(got.nlink, 1);
}

#[test]
fn devices_and_fifo() {
    let fs = Filesystem::new();
    let mut w = fs.writer();
    w.write_fifo(b"/dev/pipe", stat_mode(0o600)).unwrap();
    w.write_char_device(b"/dev/null0", stat_mode(0o666), 1, 3).unwrap();
    w.write_block_device(b"/dev/blk", stat_mode(0o660), 8, 0).unwrap();
    let fs = w.finish();
    for p in [b"/dev/pipe".as_slice(), b"/dev/null0", b"/dev/blk"] {
        let f = fs.open(p).unwrap();
        assert!(!fs.is_file(&f));
        assert!(!fs.is_directory(&f));
        assert_eq!(fs.vfile_storage(&f), Err(VFSError::FileExpected));
    }
}

#[test]
fn open_at_resolves_from_root() {
    let fs = Filesystem::new();
    let mut w = fs.writer();
    w.write_file(b"/etc/passwd", Some(StorageKey(9)), stat_mode(0o644)).unwrap();
    let fs = w.finish();
    let d = fs.open(b"/etc").unwrap();
    let f = fs.open_at(Some(&d), b"/etc/passwd").unwrap();
    assert_eq!(fs.vfile_storage(&f).unwrap(), Some(StorageKey(9)));
}

#[test]
fn displacing_write_updates_link_counts() {
    let fs = Filesystem::new();
    let mut w = fs.writer();
    w.write_file(b"/f", Some(StorageKey(1)), stat_mode(0o644)).unwrap();
    w.write_file(b"/f", Some(StorageKey(2)), stat_mode(0o644)).unwrap();
    let fs = w.finish();
    let f = fs.open(b"/f").unwrap();
    assert_eq!(fs.vfile_storage(&f).unwrap(), Some(StorageKey(2)));
    assert_eq!(fs.vfile_stat(&f).unwrap().nlink, 1);
}

#[test]
fn limits_budgets() {
    let mut l = Limits::reset();
    assert_eq!(l.path_segment, 1000);
    assert_eq!(l.symbolic_link, 50);
    for _ in 0..1000 {
        l.take_path_segment().unwrap();
    }
    assert_eq!(
        l.take_path_segment(),
        Err(VFSError::PathSegmentLimitExceeded)
    );
    for _ in 0..50 {
        l.take_symbolic_link().unwrap();
    }
    assert_eq!(
        l.take_symbolic_link(),
        Err(VFSError::SymbolicLinkLimitExceeded)
    );
}

#[test]
fn errno_translation() {
    assert_eq!(VFSError::NotFound.to_errno(), 2);
    assert_eq!(VFSError::DirectoryExpected.to_errno(), 20);
    assert_eq!(VFSError::FileExpected.to_errno(), 21);
    assert_eq!(VFSError::UnallocNode.to_errno(), 5);
    assert_eq!(VFSError::PathSegmentLimitExceeded.to_errno(), 36);
    assert_eq!(VFSError::SymbolicLinkLimitExceeded.to_errno(), 40);
    assert_eq!(VFSError::INodeRefCountError.to_errno(), 31);
}

#[test]
fn relative_symlink_target() {
    let fs = Filesystem::new();
    let mut w = fs.writer();
    w.write_directory_metadata(b"/a", stat_mode(0o755)).unwrap();
    w.write_file(b"/a/real", Some(StorageKey(4)), stat_mode(0o644)).unwrap();
    w.write_symlink(b"/a/alias", b"real", stat_mode(0o777)).unwrap();
    let fs = w.finish();
    let f = fs.open(b"/a/alias").unwrap();
    assert_eq!(fs.vfile_storage(&f).unwrap(), Some(StorageKey(4)));
}

#[test]
fn dot_and_dotdot_walk() {
    let fs = Filesystem::new();
    let mut w = fs.writer();
    w.write_file(b"/a/b/f", Some(StorageKey(3)), stat_mode(0o644)).unwrap();
    let fs = w.finish();
    let f = fs.open(b"/a/b/../b/./f").unwrap();
    assert_eq!(fs.vfile_storage(&f).unwrap(), Some(StorageKey(3)));
}

#[test]
fn snapshot_is_independent() {
    let fs = Filesystem::new();
    let mut w = fs.writer();
    w.write_file(b"/one", Some(StorageKey(1)), stat_mode(0o644)).unwrap();
    let base = w.finish();
    let snapshot = base.clone();
    let mut w = base.writer();
    w.write_file(b"/two", Some(StorageKey(2)), stat_mode(0o644)).unwrap();
    let grown = w.finish();
    assert!(grown.open(b"/two").is_ok());
    assert_eq!(snapshot.open(b"/two"), Err(VFSError::NotFound));
    assert!(snapshot.open(b"/one").is_ok());
}
