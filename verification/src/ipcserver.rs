//! The tracer-side server's bookkeeping: the table of live guest
//! processes and the replies it builds for task requests. Socket I/O and
//! process spawning stay with the caller.

use vstd::prelude::*;

use crate::errors::ENOSYS;
use crate::protocol::{Errno, FileStat, FromSand, MessageToSand, ProcessHandle, SysFd, ToSand,
    VPid};
use crate::taskcall::{change_working_dir, file_access, file_stat, get_working_dir};
use crate::vfs::{
    fs_shape_wf, is_directory_spec, open_nofollow_spec, open_spec, vfile_stat_spec,
    vfile_storage_spec, Filesystem, StorageKey,
};
use crate::taskcall::ProcessState;

verus! {

/// Failure of the server's message handling.
#[derive(Debug, Clone, Copy, PartialEq, Eq, Structural)]
pub enum IPCError {
    /// A request arrived for a task in the wrong lifecycle state.
    WrongProcessState,
}

/// The table of live guest processes, keyed by virtual pid.
#[derive(Debug)]
pub struct ProcessTable {
    entries: Vec<(u32, ProcessState)>,
}

/// The first entry with the given key, scanned front to back.
pub open spec fn table_lookup(es: Seq<(u32, ProcessState)>, k: u32) -> Option<ProcessState>
    decreases es.len(),
{
    if es.len() == 0 {
        None
    } else if es[0].0 == k {
        Some(es[0].1)
    } else {
        table_lookup(es.skip(1), k)
    }
}

impl View for ProcessTable {
    type V = Seq<(u32, ProcessState)>;

    closed spec fn view(&self) -> Seq<(u32, ProcessState)> {
        self.entries@
    }
}

impl ProcessTable {
    /// An empty table.
    pub fn new() -> (r: ProcessTable)
        ensures
            r@ == Seq::<(u32, ProcessState)>::empty(),
    {
        let r = ProcessTable { entries: Vec::new() };
        proof {
            assert(r@ =~= Seq::<(u32, ProcessState)>::empty());
        }
        r
    }

    /// Whether a task is known.
    pub fn contains(&self, task: VPid) -> (r: bool)
        ensures
            r == (table_lookup(self@, task.0) is Some),
    {
        let ghost full = self@;
        proof {
            assert(full.skip(0) =~= full);
        }
        let n = self.entries.len();
        let mut i: usize = 0;
        while i < n
            invariant
                0 <= i <= n,
                n == self@.len(),
                full == self@,
                table_lookup(full.skip(i as int), task.0) == table_lookup(full, task.0),
            decreases n - i,
        {
            proof {
                assert(full.skip(i as int)[0] == full[i as int]);
            }
            if self.entries[i].0 == task.0 {
                return true;
            }
            proof {
                assert(full.skip(i as int).skip(1) =~= full.skip(i as int + 1));
            }
            i = i + 1;
        }
        proof {
            assert(full.skip(n as int) =~= Seq::<(u32, ProcessState)>::empty());
        }
        false
    }

    /// The state of a known task.
    pub fn get(&self, task: VPid) -> (r: Option<ProcessState>)
        ensures
            r == table_lookup(self@, task.0),
    {
        let ghost full = self@;
        proof {
            assert(full.skip(0) =~= full);
        }
        let n = self.entries.len();
        let mut i: usize = 0;
        while i < n
            invariant
                0 <= i <= n,
                n == self@.len(),
                full == self@,
                table_lookup(full.skip(i as int), task.0) == table_lookup(full, task.0),
            decreases n - i,
        {
            proof {
                assert(full.skip(i as int)[0] == full[i as int]);
            }
            if self.entries[i].0 == task.0 {
                return Some(self.entries[i].1);
            }
            proof {
                assert(full.skip(i as int).skip(1) =~= full.skip(i as int + 1));
            }
            i = i + 1;
        }
        proof {
            assert(full.skip(n as int) =~= Seq::<(u32, ProcessState)>::empty());
        }
        None
    }

    /// Record a new task. It must not be present yet.
    pub fn insert(&mut self, task: VPid, state: ProcessState)
        requires
            table_lookup(old(self)@, task.0) is None,
        ensures
            final(self)@ == old(self)@.push((task.0, state)),
    {
        self.entries.push((task.0, state));
    }

    /// Replace the state of a known task.
    pub fn set(&mut self, task: VPid, state: ProcessState) -> (r: bool)
        ensures
            ({
                let k = table_index(old(self)@, task.0);
                if k >= 0 {
                    r && final(self)@ == old(self)@.update(k, (task.0, state))
                } else {
                    !r && final(self)@ == old(self)@
                }
            }),
    {
        let ghost full = self@;
        proof {
            assert(full.skip(0) =~= full);
            lemma_table_index(full, task.0);
        }
        let n = self.entries.len();
        let mut i: usize = 0;
        while i < n
            invariant
                0 <= i <= n,
                n == self@.len(),
                full == self@,
                self@ == old(self)@,
                table_index(full, task.0) == -1 <==> table_index(full.skip(i as int), task.0)
                    == -1,
                table_index(full, task.0) != -1 ==> table_index(full, task.0) == i
                    + table_index(full.skip(i as int), task.0)
                    && table_index(full.skip(i as int), task.0) >= 0,
            decreases n - i,
        {
            proof {
                assert(full.skip(i as int)[0] == full[i as int]);
            }
            if self.entries[i].0 == task.0 {
                self.entries[i] = (task.0, state);
                return true;
            }
            proof {
                assert(full.skip(i as int).skip(1) =~= full.skip(i as int + 1));
                lemma_table_index(full.skip(i as int), task.0);
                lemma_table_index(full.skip(i as int + 1), task.0);
            }
            i = i + 1;
        }
        proof {
            assert(full.skip(n as int) =~= Seq::<(u32, ProcessState)>::empty());
        }
        false
    }
}

/// The position of the first entry with the given key, or -1.
pub open spec fn table_index(es: Seq<(u32, ProcessState)>, k: u32) -> int
    decreases es.len(),
{
    if es.len() == 0 {
        -1
    } else if es[0].0 == k {
        0
    } else if table_index(es.skip(1), k) == -1 {
        -1
    } else {
        1 + table_index(es.skip(1), k)
    }
}

pub proof fn lemma_table_index(es: Seq<(u32, ProcessState)>, k: u32)
    ensures
        table_index(es, k) == -1 <==> table_lookup(es, k) is None,
        table_index(es, k) != -1 ==> 0 <= table_index(es, k) < es.len() && es[table_index(
            es,
            k,
        )].0 == k && forall|j: int| 0 <= j < table_index(es, k) ==> (#[trigger] es[j]).0 != k,
    decreases es.len(),
{
    if es.len() > 0 && es[0].0 != k {
        lemma_table_index(es.skip(1), k);
        if table_index(es.skip(1), k) != -1 {
            assert(es[table_index(es, k)] == es.skip(1)[table_index(es, k) - 1]);
            assert forall|j: int| 0 <= j < table_index(es, k) implies (#[trigger] es[j]).0
                != k by {
                if j > 0 {
                    assert(es[j] == es.skip(1)[j - 1]);
                }
            }
        }
    }
}

/// The reply the server sends for a plain task request.
pub fn task_reply(task: VPid, result: Result<(), Errno>) -> (r: MessageToSand)
    ensures
        r == (MessageToSand { task, op: ToSand::Reply(result) }),
{
    MessageToSand { task, op: ToSand::Reply(result) }
}

/// The reply the server sends for a file-open request, carrying the
/// descriptor the storage backend produced.
pub fn task_file_reply(task: VPid, result: Result<SysFd, Errno>) -> (r: MessageToSand)
    ensures
        r == (MessageToSand { task, op: ToSand::FileReply(result) }),
{
    MessageToSand { task, op: ToSand::FileReply(result) }
}

/// The reply the server sends when a task opens its process: either the
/// task was unknown until now and receives a handle, or the request is a
/// protocol violation.
pub fn open_process_reply(table: &mut ProcessTable, task: VPid, root: crate::vfs::VFile,
    handle: ProcessHandle) -> (r: Result<MessageToSand, IPCError>)
    ensures
        table_lookup(old(table)@, task.0) is Some ==> r == Result::<
            MessageToSand,
            IPCError,
        >::Err(IPCError::WrongProcessState) && final(table)@ == old(table)@,
        table_lookup(old(table)@, task.0) is None ==> r == Result::<
            MessageToSand,
            IPCError,
        >::Ok(MessageToSand { task, op: ToSand::OpenProcessReply(handle) }) && final(table)@
            == old(table)@.push((task.0, ProcessState { current_dir: root })),
{
    if table.contains(task) {
        Err(IPCError::WrongProcessState)
    } else {
        table.insert(task, ProcessState { current_dir: root });
        Ok(MessageToSand { task, op: ToSand::OpenProcessReply(handle) })
    }
}


/// What the server's loop must do after one task request was handled:
/// everything but the I/O itself.
#[derive(Debug, Clone, Copy, PartialEq, Eq)]
pub enum ServerAction {
    /// Send this reply to the task.
    Send(MessageToSand),
    /// Resolve this content key through the content storage (`None`
    /// means an empty file), then send a file reply carrying the
    /// resulting descriptor, or the storage failure as an error.
    SendFile { task: VPid, key: Option<StorageKey> },
    /// No reply is owed.
    NoReply,
}

/// Handle one task request: gate every per-process request on the task
/// being known (an unknown task is a protocol violation), consult the
/// filesystem, and say what reply the loop must send. `path` holds the
/// bytes the caller read at the request's guest string pointer; it is
/// ignored by requests that carry no path. A stat request without a path
/// is answered with the no-such-syscall error.
pub fn handle_task_message(
    table: &mut ProcessTable,
    fs: &Filesystem,
    task: VPid,
    op: &FromSand,
    handle: ProcessHandle,
    path: &[u8],
) -> (r: Result<ServerAction, IPCError>)
    requires
        fs_shape_wf(fs@),
    ensures
        match *op {
            FromSand::OpenProcess(_) => {
                if table_lookup(old(table)@, task.0) is Some {
                    r == Result::<ServerAction, IPCError>::Err(IPCError::WrongProcessState)
                        && final(table)@ == old(table)@
                } else {
                    r == Result::<ServerAction, IPCError>::Ok(
                        ServerAction::Send(
                            MessageToSand { task, op: ToSand::OpenProcessReply(handle) },
                        ),
                    ) && final(table)@.len() == old(table)@.len() + 1
                        && table_lookup(final(table)@, task.0) is Some
                }
            },
            FromSand::ChangeWorkingDir(_) => {
                if table_lookup(old(table)@, task.0) is None {
                    r == Result::<ServerAction, IPCError>::Err(IPCError::WrongProcessState)
                        && final(table)@ == old(table)@
                } else {
                    match open_spec(fs@, path@) {
                        Ok(node) => {
                            if is_directory_spec(fs@, node) {
                                r == Result::<ServerAction, IPCError>::Ok(
                                    ServerAction::Send(
                                        MessageToSand { task, op: ToSand::Reply(Ok(())) },
                                    ),
                                ) && table_lookup(final(table)@, task.0) is Some
                                    && table_lookup(
                                    final(table)@,
                                    task.0,
                                )->Some_0.current_dir@ == node
                            } else {
                                r == Result::<ServerAction, IPCError>::Ok(
                                    ServerAction::Send(
                                        MessageToSand {
                                            task,
                                            op: ToSand::Reply(
                                                Err(
                                                    Errno(
                                                        (0 - crate::errors::ENOTDIR) as i32,
                                                    ),
                                                ),
                                            ),
                                        },
                                    ),
                                ) && final(table)@ == old(table)@
                            }
                        },
                        Err(e) => r == Result::<ServerAction, IPCError>::Ok(
                            ServerAction::Send(
                                MessageToSand {
                                    task,
                                    op: ToSand::Reply(
                                        Err(Errno((0 - e.to_errno_spec()) as i32)),
                                    ),
                                },
                            ),
                        ) && final(table)@ == old(table)@,
                    }
                }
            },
            FromSand::FileAccess { .. } => {
                final(table)@ == old(table)@ && if table_lookup(old(table)@, task.0) is None {
                    r == Result::<ServerAction, IPCError>::Err(IPCError::WrongProcessState)
                } else {
                    match open_spec(fs@, path@) {
                        Ok(_) => r == Result::<ServerAction, IPCError>::Ok(
                            ServerAction::Send(
                                MessageToSand { task, op: ToSand::Reply(Ok(())) },
                            ),
                        ),
                        Err(e) => r == Result::<ServerAction, IPCError>::Ok(
                            ServerAction::Send(
                                MessageToSand {
                                    task,
                                    op: ToSand::Reply(
                                        Err(Errno((0 - e.to_errno_spec()) as i32)),
                                    ),
                                },
                            ),
                        ),
                    }
                }
            },
            FromSand::FileOpen { .. } => {
                final(table)@ == old(table)@ && if table_lookup(old(table)@, task.0) is None {
                    r == Result::<ServerAction, IPCError>::Err(IPCError::WrongProcessState)
                } else {
                    match open_spec(fs@, path@) {
                        Ok(node) => match vfile_storage_spec(fs@, node) {
                            Ok(key) => r == Result::<ServerAction, IPCError>::Ok(
                                ServerAction::SendFile { task, key },
                            ),
                            Err(e) => r == Result::<ServerAction, IPCError>::Ok(
                                ServerAction::Send(
                                    MessageToSand {
                                        task,
                                        op: ToSand::FileReply(
                                            Err(Errno((0 - e.to_errno_spec()) as i32)),
                                        ),
                                    },
                                ),
                            ),
                        },
                        Err(e) => r == Result::<ServerAction, IPCError>::Ok(
                            ServerAction::Send(
                                MessageToSand {
                                    task,
                                    op: ToSand::FileReply(
                                        Err(Errno((0 - e.to_errno_spec()) as i32)),
                                    ),
                                },
                            ),
                        ),
                    }
                }
            },
            FromSand::FileStat { file, path: p, nofollow } => {
                final(table)@ == old(table)@ && if table_lookup(old(table)@, task.0) is None {
                    r == Result::<ServerAction, IPCError>::Err(IPCError::WrongProcessState)
                } else if p is None {
                    r == Result::<ServerAction, IPCError>::Ok(
                        ServerAction::Send(
                            MessageToSand {
                                task,
                                op: ToSand::FileStatReply(
                                    Err(Errno((0 - ENOSYS) as i32)),
                                ),
                            },
                        ),
                    )
                } else {
                    let walk = if nofollow {
                        open_nofollow_spec(fs@, path@)
                    } else {
                        open_spec(fs@, path@)
                    };
                    match walk {
                        Ok(node) => match vfile_stat_spec(fs@, node) {
                            Ok(st) => r == Result::<ServerAction, IPCError>::Ok(
                                ServerAction::Send(
                                    MessageToSand {
                                        task,
                                        op: ToSand::FileStatReply(
                                            Ok(FileStat { stat: st }),
                                        ),
                                    },
                                ),
                            ),
                            Err(e) => r == Result::<ServerAction, IPCError>::Ok(
                                ServerAction::Send(
                                    MessageToSand {
                                        task,
                                        op: ToSand::FileStatReply(
                                            Err(Errno((0 - e.to_errno_spec()) as i32)),
                                        ),
                                    },
                                ),
                            ),
                        },
                        Err(e) => r == Result::<ServerAction, IPCError>::Ok(
                            ServerAction::Send(
                                MessageToSand {
                                    task,
                                    op: ToSand::FileStatReply(
                                        Err(Errno((0 - e.to_errno_spec()) as i32)),
                                    ),
                                },
                            ),
                        ),
                    }
                }
            },
            FromSand::GetWorkingDir(_, _) => {
                final(table)@ == old(table)@ && if table_lookup(old(table)@, task.0) is None {
                    r == Result::<ServerAction, IPCError>::Err(IPCError::WrongProcessState)
                } else {
                    r == Result::<ServerAction, IPCError>::Ok(
                        ServerAction::Send(
                            MessageToSand { task, op: ToSand::SizeReply(Ok(0u64)) },
                        ),
                    )
                }
            },
            FromSand::Log(_, _) => r == Result::<ServerAction, IPCError>::Ok(
                ServerAction::NoReply,
            ) && final(table)@ == old(table)@,
            FromSand::Exited(_) => r == Result::<ServerAction, IPCError>::Ok(
                ServerAction::NoReply,
            ) && final(table)@ == old(table)@,
        },
{
    match op {
        FromSand::OpenProcess(_) => {
            if table.contains(task) {
                Err(IPCError::WrongProcessState)
            } else {
                table.insert(task, ProcessState { current_dir: fs.open_root() });
                proof {
                    assert(table@.last().0 == task.0);
                    lemma_table_lookup_last(table@, task.0);
                }
                Ok(ServerAction::Send(
                    MessageToSand { task, op: ToSand::OpenProcessReply(handle) },
                ))
            }
        },
        FromSand::ChangeWorkingDir(_) => {
            let mut st = match table.get(task) {
                Some(st) => st,
                None => {
                    return Err(IPCError::WrongProcessState);
                },
            };
            let res = change_working_dir(&mut st, fs, path);
            match res {
                Ok(()) => {
                    let ghost pre = table@;
                    let updated = table.set(task, st);
                    proof {
                        lemma_table_index(pre, task.0);
                        assert(updated);
                        let k = table_index(pre, task.0);
                        assert forall|j: int| 0 <= j < k implies (#[trigger] table@[j]).0
                            != task.0 by {
                            assert(table@[j] == pre[j]);
                        }
                        lemma_table_lookup_at(table@, task.0, k);
                    }
                    Ok(ServerAction::Send(
                        MessageToSand { task, op: ToSand::Reply(Ok(())) },
                    ))
                },
                Err(e) => Ok(ServerAction::Send(
                    MessageToSand { task, op: ToSand::Reply(Err(e)) },
                )),
            }
        },
        FromSand::FileAccess { mode, .. } => {
            if !table.contains(task) {
                return Err(IPCError::WrongProcessState);
            }
            let res = file_access(fs, path, *mode);
            proof {
                match res {
                    Ok(u) => {
                        assert(u == ());
                        assert(res == Ok::<(), Errno>(u));
                    },
                    Err(_) => {},
                }
            }
            Ok(ServerAction::Send(MessageToSand { task, op: ToSand::Reply(res) }))
        },
        FromSand::FileOpen { .. } => {
            if !table.contains(task) {
                return Err(IPCError::WrongProcessState);
            }
            match fs.open(path) {
                Ok(vfile) => match fs.vfile_storage(&vfile) {
                    Ok(key) => Ok(ServerAction::SendFile { task, key }),
                    Err(e) => Ok(ServerAction::Send(
                        MessageToSand {
                            task,
                            op: ToSand::FileReply(Err(Errno(0 - e.to_errno()))),
                        },
                    )),
                },
                Err(e) => Ok(ServerAction::Send(
                    MessageToSand {
                        task,
                        op: ToSand::FileReply(Err(Errno(0 - e.to_errno()))),
                    },
                )),
            }
        },
        FromSand::FileStat { path: p, nofollow, .. } => {
            if !table.contains(task) {
                return Err(IPCError::WrongProcessState);
            }
            if p.is_none() {
                return Ok(ServerAction::Send(
                    MessageToSand {
                        task,
                        op: ToSand::FileStatReply(Err(Errno(0 - ENOSYS))),
                    },
                ));
            }
            let res = file_stat(fs, path, *nofollow);
            Ok(ServerAction::Send(MessageToSand { task, op: ToSand::FileStatReply(res) }))
        },
        FromSand::GetWorkingDir(_, size) => {
            let st = match table.get(task) {
                Some(st) => st,
                None => {
                    return Err(IPCError::WrongProcessState);
                },
            };
            let res = get_working_dir(&st, *size);
            Ok(ServerAction::Send(MessageToSand { task, op: ToSand::SizeReply(res) }))
        },
        FromSand::Log(_, _) => Ok(ServerAction::NoReply),
        FromSand::Exited(_) => Ok(ServerAction::NoReply),
    }
}

/// A freshly appended entry is found by lookup when its key appears
/// nowhere earlier; here it is enough that lookup finds some entry.
proof fn lemma_table_lookup_last(es: Seq<(u32, ProcessState)>, k: u32)
    requires
        es.len() > 0,
        es.last().0 == k,
    ensures
        table_lookup(es, k) is Some,
    decreases es.len(),
{
    if es[0].0 != k {
        assert(es.skip(1).last() == es.last());
        lemma_table_lookup_last(es.skip(1), k);
    }
}

/// Lookup finds the first entry with its key, so after an update at that
/// position the updated state is what lookup answers.
proof fn lemma_table_lookup_at(es: Seq<(u32, ProcessState)>, k: u32, at: int)
    requires
        0 <= at < es.len(),
        es[at].0 == k,
        forall|j: int| 0 <= j < at ==> (#[trigger] es[j]).0 != k,
    ensures
        table_lookup(es, k) == Some(es[at].1),
    decreases es.len(),
{
    if at > 0 {
        assert forall|j: int| 0 <= j < at - 1 implies (#[trigger] es.skip(1)[j]).0 != k by {
            assert(es.skip(1)[j] == es[j + 1]);
        }
        assert(es.skip(1)[at - 1] == es[at]);
        lemma_table_lookup_at(es.skip(1), k, at - 1);
    }
}

} // verus!
