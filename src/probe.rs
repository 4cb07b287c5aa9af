//! What the kernel probes decide, given what they read from the tracepoint
//! context: which record to emit, and what to keep in the per-thread stashes
//! between a syscall's entry and its exit.
//!
//! The reads themselves (context offsets, user memory, the current task's
//! ids) happen in the probe programs; a read that failed arrives here as
//! `None`, or as the fallback value the probe substitutes for it.
use std::collections::HashMap;
use vstd::prelude::*;

use crate::abi::{
    u16_at, u32_at, DupEvent, EventHeader, ExecveEvent, HookType, MemfdEvent, MmapEvent,
    SocketAllocEvent, SocketConnectEvent, FILENAME_LEN,
};

verus! {

broadcast use vstd::std_specs::hash::group_hash_axioms;

/// Number of threads a stash can hold at once.
pub const STASH_CAPACITY: usize = 1024;

/// Size of the `sockaddr_in` that a connect probe reads from user memory.
pub const SOCKADDR_IN_LEN: usize = 16;

/// The filename captured when a thread enters memfd_create.
#[derive(Clone, Copy, Debug, PartialEq, Eq)]
pub struct MemfdState {
    pub filename: [u8; 64],
}

impl Default for MemfdState {
    fn default() -> (r: MemfdState)
        ensures
            forall|i: int| 0 <= i < FILENAME_LEN ==> r.filename@[i] == 0,
    {
        MemfdState { filename: [0u8; 64] }
    }
}

/// The arguments captured when a thread enters socket.
#[derive(Clone, Copy, Debug, Default, PartialEq, Eq, Structural)]
pub struct SocketState {
    pub domain: u32,
    pub type_: u32,
    pub protocol: u32,
}

/// Thread id half of a `pid_tgid` word.
pub open spec fn spec_tid(pid_tgid: u64) -> u32 {
    pid_tgid as u32
}

/// Process id half of a `pid_tgid` word.
pub open spec fn spec_pid(pid_tgid: u64) -> u32 {
    (pid_tgid >> 32u64) as u32
}

pub open spec fn spec_make_header(event_type: HookType, pid_tgid: u64) -> EventHeader {
    EventHeader {
        event_type,
        pid: spec_pid(pid_tgid) as i32,
        tid: spec_tid(pid_tgid) as i32,
    }
}

/// Splits the kernel's `pid_tgid` word: the process id is the upper half,
/// the thread id the lower half.
pub fn get_pid_tid(pid_tgid: u64) -> (r: (u32, u32))
    ensures
        r == (spec_pid(pid_tgid), spec_tid(pid_tgid)),
{
    let tid = pid_tgid as u32;
    let pid = (pid_tgid >> 32u64) as u32;
    (pid, tid)
}

/// The header of a record of the given kind for the current task.
pub fn make_header(event_type: HookType, pid_tgid: u64) -> (r: EventHeader)
    ensures
        r == spec_make_header(event_type, pid_tgid),
{
    let (pid, tid) = get_pid_tid(pid_tgid);
    EventHeader { event_type, pid: pid as i32, tid: tid as i32 }
}

// ---------------------------------------------------------------------------
// Per-thread stash
// ---------------------------------------------------------------------------
/// A bounded map from thread id to what that thread's syscall entry captured.
pub struct Stash<V> {
    entries: HashMap<u32, V>,
}

impl<V> View for Stash<V> {
    type V = Map<u32, V>;

    closed spec fn view(&self) -> Map<u32, V> {
        self.entries@
    }
}

/// The stash after storing `v` for `tid`: a new thread is refused once the
/// stash is full; a thread already present has its entry replaced.
pub open spec fn stash_put<V>(m: Map<u32, V>, tid: u32, v: V) -> Map<u32, V> {
    if m.contains_key(tid) || m.len() < STASH_CAPACITY {
        m.insert(tid, v)
    } else {
        m
    }
}

impl<V> Stash<V> {
    pub open spec fn wf(&self) -> bool {
        &&& self@.dom().finite()
        &&& self@.len() <= STASH_CAPACITY
    }

    pub fn new() -> (r: Stash<V>)
        ensures
            r.wf(),
            r@ == Map::<u32, V>::empty(),
    {
        Stash { entries: HashMap::new() }
    }

    pub fn len(&self) -> (r: usize)
        ensures
            r == self@.len(),
    {
        self.entries.len()
    }

    pub fn contains(&self, tid: u32) -> (r: bool)
        ensures
            r == self@.contains_key(tid),
    {
        self.entries.contains_key(&tid)
    }

    /// Stores `v` for `tid`; returns whether it was stored.
    pub fn insert(&mut self, tid: u32, v: V) -> (ok: bool)
        requires
            old(self).wf(),
        ensures
            final(self).wf(),
            final(self)@ == stash_put(old(self)@, tid, v),
            ok == (old(self)@.contains_key(tid) || old(self)@.len() < STASH_CAPACITY),
    {
        if self.entries.contains_key(&tid) || self.entries.len() < STASH_CAPACITY {
            self.entries.insert(tid, v);
            true
        } else {
            false
        }
    }

    /// Removes and returns the entry of `tid`, if any.
    pub fn take(&mut self, tid: u32) -> (r: Option<V>)
        requires
            old(self).wf(),
        ensures
            final(self).wf(),
            final(self)@ == old(self)@.remove(tid),
            r == (if old(self)@.contains_key(tid) {
                Some(old(self)@[tid])
            } else {
                None
            }),
    {
        self.entries.remove(&tid)
    }
}

// ---------------------------------------------------------------------------
// memfd_create
// ---------------------------------------------------------------------------
/// The stash after a thread enters memfd_create; `name` is `None` when the
/// name pointer or the string behind it could not be read.
pub open spec fn spec_memfd_enter(
    m: Map<u32, MemfdState>,
    pid_tgid: u64,
    name: Option<[u8; 64]>,
) -> Map<u32, MemfdState> {
    match name {
        Some(n) => stash_put(m, spec_tid(pid_tgid), MemfdState { filename: n }),
        None => m,
    }
}

/// The record a thread's exit from memfd_create emits: one exactly when its
/// entry was stashed and the call returned a descriptor (`ret >= 0`).
pub open spec fn spec_memfd_exit(m: Map<u32, MemfdState>, pid_tgid: u64, ret: i64) -> Option<
    MemfdEvent,
> {
    let tid = spec_tid(pid_tgid);
    if m.contains_key(tid) && ret >= 0 {
        Some(
            MemfdEvent {
                header: spec_make_header(HookType::Memfd, pid_tgid),
                filename: m[tid].filename,
                fd: ret as i32,
            },
        )
    } else {
        None
    }
}

/// Entry probe of memfd_create: stashes the captured name under the thread id.
pub fn memfd_create(stash: &mut Stash<MemfdState>, pid_tgid: u64, name: Option<[u8; 64]>)
    requires
        old(stash).wf(),
    ensures
        final(stash).wf(),
        final(stash)@ == spec_memfd_enter(old(stash)@, pid_tgid, name),
{
    let (_, tid) = get_pid_tid(pid_tgid);
    match name {
        Some(filename) => {
            let _ = stash.insert(tid, MemfdState { filename });
        },
        None => {},
    }
}

/// Exit probe of memfd_create: `ret` is the syscall's return value (the probe
/// passes -1 when it cannot read it). The thread's entry leaves the stash
/// whatever the outcome.
pub fn memfd_exit(stash: &mut Stash<MemfdState>, pid_tgid: u64, ret: i64) -> (r: Option<
    MemfdEvent,
>)
    requires
        old(stash).wf(),
    ensures
        final(stash).wf(),
        final(stash)@ == old(stash)@.remove(spec_tid(pid_tgid)),
        r == spec_memfd_exit(old(stash)@, pid_tgid, ret),
{
    let (_, tid) = get_pid_tid(pid_tgid);
    match stash.take(tid) {
        Some(state) => {
            if ret >= 0 {
                Some(
                    MemfdEvent {
                        header: make_header(HookType::Memfd, pid_tgid),
                        filename: state.filename,
                        fd: ret as i32,
                    },
                )
            } else {
                None
            }
        },
        None => None,
    }
}

// ---------------------------------------------------------------------------
// socket
// ---------------------------------------------------------------------------
/// The stash after a thread enters socket: the arguments are stashed only
/// when all three could be read; otherwise the probe stashes nothing.
pub open spec fn spec_socket_enter(
    m: Map<u32, SocketState>,
    pid_tgid: u64,
    domain: Option<i64>,
    type_: Option<i64>,
    protocol: Option<i64>,
) -> Map<u32, SocketState> {
    if domain is Some && type_ is Some && protocol is Some {
        stash_put(
            m,
            spec_tid(pid_tgid),
            SocketState {
                domain: domain->0 as u32,
                type_: type_->0 as u32,
                protocol: protocol->0 as u32,
            },
        )
    } else {
        m
    }
}

/// The record a thread's exit from socket emits: one exactly when its entry
/// was stashed and the call returned a descriptor (`ret >= 0`).
pub open spec fn spec_socket_exit(m: Map<u32, SocketState>, pid_tgid: u64, ret: i64) -> Option<
    SocketAllocEvent,
> {
    let tid = spec_tid(pid_tgid);
    if m.contains_key(tid) && ret >= 0 {
        Some(
            SocketAllocEvent {
                header: spec_make_header(HookType::SocketAlloc, pid_tgid),
                fd: ret as i32,
                domain: m[tid].domain,
                type_: m[tid].type_,
                protocol: m[tid].protocol,
            },
        )
    } else {
        None
    }
}

/// Entry probe of socket: stashes domain, type and protocol under the thread
/// id; when one of them could not be read it returns without stashing.
pub fn sys_enter_socket(
    stash: &mut Stash<SocketState>,
    pid_tgid: u64,
    domain: Option<i64>,
    type_: Option<i64>,
    protocol: Option<i64>,
)
    requires
        old(stash).wf(),
    ensures
        final(stash).wf(),
        final(stash)@ == spec_socket_enter(old(stash)@, pid_tgid, domain, type_, protocol),
{
    let (_, tid) = get_pid_tid(pid_tgid);
    match (domain, type_, protocol) {
        (Some(domain), Some(type_), Some(protocol)) => {
            let state = SocketState {
                domain: domain as u32,
                type_: type_ as u32,
                protocol: protocol as u32,
            };
            let _ = stash.insert(tid, state);
        },
        _ => {},
    }
}

/// Exit probe of socket: `ret` is the syscall's return value (the probe
/// passes -1 when it cannot read it). The thread's entry leaves the stash
/// whatever the outcome.
pub fn sys_exit_socket(stash: &mut Stash<SocketState>, pid_tgid: u64, ret: i64) -> (r: Option<
    SocketAllocEvent,
>)
    requires
        old(stash).wf(),
    ensures
        final(stash).wf(),
        final(stash)@ == old(stash)@.remove(spec_tid(pid_tgid)),
        r == spec_socket_exit(old(stash)@, pid_tgid, ret),
{
    let (_, tid) = get_pid_tid(pid_tgid);
    match stash.take(tid) {
        Some(state) => {
            if ret >= 0 {
                Some(
                    SocketAllocEvent {
                        header: make_header(HookType::SocketAlloc, pid_tgid),
                        fd: ret as i32,
                        domain: state.domain,
                        type_: state.type_,
                        protocol: state.protocol,
                    },
                )
            } else {
                None
            }
        },
        None => None,
    }
}

// ---------------------------------------------------------------------------
// Single-point probes
// ---------------------------------------------------------------------------
/// Entry probe of execveat: a record only when both the descriptor and the
/// flags could be read.
pub fn sys_enter_execveat(pid_tgid: u64, fd: Option<i64>, flags: Option<i64>) -> (r: Option<
    ExecveEvent,
>)
    ensures
        r == (if fd is Some && flags is Some {
            Some(
                ExecveEvent {
                    header: spec_make_header(HookType::Execve, pid_tgid),
                    fd: fd->0 as i32,
                    flags: flags->0 as u32,
                },
            )
        } else {
            None
        }),
{
    match (fd, flags) {
        (Some(fd), Some(flags)) => Some(
            ExecveEvent {
                header: make_header(HookType::Execve, pid_tgid),
                fd: fd as i32,
                flags: flags as u32,
            },
        ),
        _ => None,
    }
}

/// Entry probe of mmap: a record only when both the protection and the
/// descriptor could be read; the map flags are not carried.
pub fn sys_enter_mmap(pid_tgid: u64, prot: Option<u64>, fd: Option<u64>) -> (r: Option<
    MmapEvent,
>)
    ensures
        r is Some <==> (prot is Some && fd is Some),
        r matches Some(e) ==> e == (MmapEvent {
            header: spec_make_header(HookType::Mmap, pid_tgid),
            fd: fd->0 as i32,
            prot: prot->0 as u32,
            flags: 0,
        }),
{
    match (prot, fd) {
        (Some(prot), Some(fd)) => Some(
            MmapEvent {
                header: make_header(HookType::Mmap, pid_tgid),
                fd: fd as i32,
                prot: prot as u32,
                flags: 0,
            },
        ),
        _ => None,
    }
}

/// The record a connect emits, given the `sockaddr_in` bytes read from user
/// memory (`None` when the pointer was null or the read failed): one only for
/// an IPv4 destination, carrying address and port bytes as the caller gave them.
pub open spec fn spec_connect(pid_tgid: u64, fd: u64, sockaddr: Option<Seq<u8>>) -> Option<
    SocketConnectEvent,
> {
    match sockaddr {
        Some(b) => if b.len() >= SOCKADDR_IN_LEN && u16_at(b, 0) == 2 {
            Some(
                SocketConnectEvent {
                    header: spec_make_header(HookType::SocketConnect, pid_tgid),
                    fd: fd as i32,
                    ip: u32_at(b, 4),
                    port: u16_at(b, 2),
                    is_ipv6: 0,
                },
            )
        } else {
            None
        },
        None => None,
    }
}

/// Entry probe of connect.
pub fn sys_enter_connect(pid_tgid: u64, fd: u64, sockaddr: Option<&[u8]>) -> (r: Option<
    SocketConnectEvent,
>)
    ensures
        r == spec_connect(
            pid_tgid,
            fd,
            match sockaddr {
                Some(b) => Some(b@),
                None => None,
            },
        ),
{
    match sockaddr {
        Some(b) => {
            if b.len() < SOCKADDR_IN_LEN {
                return None;
            }
            let family = (b[0] as u16) | ((b[1] as u16) << 8u16);
            if family != 2 {
                return None;
            }
            let port = (b[2] as u16) | ((b[3] as u16) << 8u16);
            let ip = (b[4] as u32) | ((b[5] as u32) << 8u32) | ((b[6] as u32) << 16u32) | ((
            b[7] as u32) << 24u32);
            Some(
                SocketConnectEvent {
                    header: make_header(HookType::SocketConnect, pid_tgid),
                    fd: fd as i32,
                    ip,
                    port,
                    is_ipv6: 0,
                },
            )
        },
        None => None,
    }
}

/// The record of a dup2 or dup3 entry: one only when both descriptors could
/// be read, so that a failed read never stands in for descriptor 0.
pub open spec fn spec_dup_event(pid_tgid: u64, old_fd: Option<u64>, new_fd: Option<u64>) -> Option<
    DupEvent,
> {
    if old_fd is Some && new_fd is Some {
        Some(
            DupEvent {
                header: spec_make_header(HookType::Dup, pid_tgid),
                old_fd: old_fd->0 as i32,
                new_fd: new_fd->0 as i32,
            },
        )
    } else {
        None
    }
}

fn handle_dup(pid_tgid: u64, old_fd: Option<u64>, new_fd: Option<u64>) -> (r: Option<DupEvent>)
    ensures
        r == spec_dup_event(pid_tgid, old_fd, new_fd),
{
    match (old_fd, new_fd) {
        (Some(old_fd), Some(new_fd)) => Some(
            DupEvent {
                header: make_header(HookType::Dup, pid_tgid),
                old_fd: old_fd as i32,
                new_fd: new_fd as i32,
            },
        ),
        _ => None,
    }
}

/// Entry probe of dup2.
pub fn sys_enter_dup2(pid_tgid: u64, old_fd: Option<u64>, new_fd: Option<u64>) -> (r: Option<
    DupEvent,
>)
    ensures
        r == spec_dup_event(pid_tgid, old_fd, new_fd),
{
    handle_dup(pid_tgid, old_fd, new_fd)
}

/// Entry probe of dup3; its flags argument plays no part.
pub fn sys_enter_dup3(pid_tgid: u64, old_fd: Option<u64>, new_fd: Option<u64>) -> (r: Option<
    DupEvent,
>)
    ensures
        r == spec_dup_event(pid_tgid, old_fd, new_fd),
{
    handle_dup(pid_tgid, old_fd, new_fd)
}

// ---------------------------------------------------------------------------
// Entry/exit pairing
// ---------------------------------------------------------------------------
/// A memory-file record is emitted only at a successful return (`ret >= 0`)
/// of a thread whose entry was stashed; it carries that thread's ids, the
/// returned descriptor and the name stashed at entry.
pub proof fn lemma_memfd_event_has_entry(m: Map<u32, MemfdState>, pid_tgid: u64, ret: i64)
    ensures
        spec_memfd_exit(m, pid_tgid, ret) matches Some(e) ==> {
            &&& ret >= 0
            &&& m.contains_key(spec_tid(pid_tgid))
            &&& e.header.tid == spec_tid(pid_tgid) as i32
            &&& e.header.event_type == HookType::Memfd
            &&& e.fd == ret as i32
            &&& e.filename == m[spec_tid(pid_tgid)].filename
        },
{
}

/// A thread that enters memfd_create with a readable name, and whose entry
/// fits in the stash, gets at its exit a record with that name exactly when
/// the call succeeded; the stash is then as before for that thread.
pub proof fn lemma_memfd_pairing(
    m: Map<u32, MemfdState>,
    pid_tgid: u64,
    name: [u8; 64],
    ret: i64,
)
    requires
        m.contains_key(spec_tid(pid_tgid)) || m.len() < STASH_CAPACITY,
    ensures
        spec_memfd_exit(spec_memfd_enter(m, pid_tgid, Some(name)), pid_tgid, ret) == (if ret
            >= 0 {
            Some(
                MemfdEvent {
                    header: spec_make_header(HookType::Memfd, pid_tgid),
                    filename: name,
                    fd: ret as i32,
                },
            )
        } else {
            None
        }),
        !spec_memfd_enter(m, pid_tgid, Some(name)).remove(spec_tid(pid_tgid)).contains_key(
            spec_tid(pid_tgid),
        ),
{
}

/// A socket record is emitted only at a successful return (`ret >= 0`) of a
/// thread whose entry was stashed; it carries that thread's ids, the returned
/// descriptor and the arguments stashed at entry.
pub proof fn lemma_socket_event_has_entry(m: Map<u32, SocketState>, pid_tgid: u64, ret: i64)
    ensures
        spec_socket_exit(m, pid_tgid, ret) matches Some(e) ==> {
            &&& ret >= 0
            &&& m.contains_key(spec_tid(pid_tgid))
            &&& e.header.tid == spec_tid(pid_tgid) as i32
            &&& e.header.event_type == HookType::SocketAlloc
            &&& e.fd == ret as i32
            &&& e.domain == m[spec_tid(pid_tgid)].domain
            &&& e.type_ == m[spec_tid(pid_tgid)].type_
            &&& e.protocol == m[spec_tid(pid_tgid)].protocol
        },
{
}

/// A thread that enters socket with readable arguments, and whose entry fits
/// in the stash, gets at its exit a record with those arguments exactly when
/// the call succeeded.
pub proof fn lemma_socket_pairing(
    m: Map<u32, SocketState>,
    pid_tgid: u64,
    domain: i64,
    type_: i64,
    protocol: i64,
    ret: i64,
)
    requires
        m.contains_key(spec_tid(pid_tgid)) || m.len() < STASH_CAPACITY,
    ensures
        spec_socket_exit(
            spec_socket_enter(m, pid_tgid, Some(domain), Some(type_), Some(protocol)),
            pid_tgid,
            ret,
        ) == (if ret >= 0 {
            Some(
                SocketAllocEvent {
                    header: spec_make_header(HookType::SocketAlloc, pid_tgid),
                    fd: ret as i32,
                    domain: domain as u32,
                    type_: type_ as u32,
                    protocol: protocol as u32,
                },
            )
        } else {
            None
        }),
{
}

} // verus!
