//! The process registry: for every observed pid, a record whose descriptor
//! table says what each of its file descriptors is.
use dashmap::DashMap;
use std::collections::HashMap;
use vstd::prelude::*;

use crate::abi::{Fd, Pid, SocketAllocEvent};
use crate::net::{decimal, push_decimal, push_str, spec_domain, RemoteAddr, SocketDomain};

verus! {

broadcast use vstd::std_specs::hash::group_hash_axioms;

// ---------------------------------------------------------------------------
// Descriptors
// ---------------------------------------------------------------------------
/// What a file descriptor is, as far as the sensor knows.
#[derive(Debug, Clone)]
pub enum DescriptorType {
    /// An anonymous memory file, with the name it was created under.
    Memfd { name: String },
    /// A network endpoint; `remote_addr` is set once a connect to IPv4 is seen.
    Socket {
        domain: SocketDomain,
        type_: u32,
        protocol: u32,
        remote_addr: Option<RemoteAddr>,
    },
    /// A file on disk (no detector records these yet).
    File { path: String },
    /// Anything else.
    Unknown,
}

/// A descriptor with its strings taken as character sequences.
pub enum DescriptorView {
    Memfd { name: Seq<char> },
    Socket {
        domain: SocketDomain,
        type_: u32,
        protocol: u32,
        remote_addr: Option<RemoteAddr>,
    },
    File { path: Seq<char> },
    Unknown,
}

impl View for DescriptorType {
    type V = DescriptorView;

    open spec fn view(&self) -> DescriptorView {
        match self {
            DescriptorType::Memfd { name } => DescriptorView::Memfd { name: name@ },
            DescriptorType::Socket { domain, type_, protocol, remote_addr } => DescriptorView::Socket {
                domain: *domain,
                type_: *type_,
                protocol: *protocol,
                remote_addr: *remote_addr,
            },
            DescriptorType::File { path } => DescriptorView::File { path: path@ },
            DescriptorType::Unknown => DescriptorView::Unknown,
        }
    }
}

impl DescriptorType {
    /// A copy of this descriptor.
    pub fn duplicate(&self) -> (r: DescriptorType)
        ensures
            r == *self,
    {
        match self {
            DescriptorType::Memfd { name } => DescriptorType::Memfd { name: name.clone() },
            DescriptorType::Socket { domain, type_, protocol, remote_addr } => DescriptorType::Socket {
                domain: *domain,
                type_: *type_,
                protocol: *protocol,
                remote_addr: *remote_addr,
            },
            DescriptorType::File { path } => DescriptorType::File { path: path.clone() },
            DescriptorType::Unknown => DescriptorType::Unknown,
        }
    }
}

/// The text of a socket domain: its variant name, with the raw value for an unknown one.
pub open spec fn domain_text(d: SocketDomain) -> Seq<char> {
    match d {
        SocketDomain::Ipv4 => "Ipv4"@,
        SocketDomain::Ipv6 => "Ipv6"@,
        SocketDomain::Unix => "Unix"@,
        SocketDomain::Netlink => "Netlink"@,
        SocketDomain::Packet => "Packet"@,
        SocketDomain::Unknown(v) => "Unknown("@ + decimal(v as nat) + ")"@,
    }
}

/// The one-line description of a descriptor.
pub open spec fn descriptor_text(d: DescriptorView) -> Seq<char> {
    match d {
        DescriptorView::Memfd { name } => "Memfd("@ + name + ")"@,
        DescriptorView::Socket { domain, type_, protocol, remote_addr } => "Socket(domain: "@
            + domain_text(domain) + ", type: "@ + decimal(type_ as nat) + ", protocol: "@
            + decimal(protocol as nat) + ", remote: "@ + match remote_addr {
            Some(a) => a.spec_text(),
            None => "N/A"@,
        } + ")"@,
        DescriptorView::File { path } => "File("@ + path + ")"@,
        DescriptorView::Unknown => "Unknown"@,
    }
}

fn push_domain(s: &mut String, d: SocketDomain)
    ensures
        final(s)@ == old(s)@ + domain_text(d),
{
    match d {
        SocketDomain::Ipv4 => push_str(s, "Ipv4"),
        SocketDomain::Ipv6 => push_str(s, "Ipv6"),
        SocketDomain::Unix => push_str(s, "Unix"),
        SocketDomain::Netlink => push_str(s, "Netlink"),
        SocketDomain::Packet => push_str(s, "Packet"),
        SocketDomain::Unknown(v) => {
            push_str(s, "Unknown(");
            push_decimal(s, v);
            push_str(s, ")");
        },
    }
    assert(final(s)@ =~= old(s)@ + domain_text(d));
}

impl DescriptorType {
    /// Describes the descriptor on one line, e.g. `Memfd(payload)` or
    /// `Socket(domain: Ipv4, type: 1, protocol: 6, remote: 127.0.0.1:80)`.
    pub fn describe(&self) -> (r: String)
        ensures
            r@ == descriptor_text(self@),
    {
        let mut s = String::new();
        match self {
            DescriptorType::Memfd { name } => {
                push_str(&mut s, "Memfd(");
                push_str(&mut s, name.as_str());
                push_str(&mut s, ")");
            },
            DescriptorType::Socket { domain, type_, protocol, remote_addr } => {
                push_str(&mut s, "Socket(domain: ");
                push_domain(&mut s, *domain);
                push_str(&mut s, ", type: ");
                push_decimal(&mut s, *type_);
                push_str(&mut s, ", protocol: ");
                push_decimal(&mut s, *protocol);
                push_str(&mut s, ", remote: ");
                match remote_addr {
                    Some(a) => {
                        let t = a.to_text();
                        push_str(&mut s, t.as_str());
                    },
                    None => push_str(&mut s, "N/A"),
                }
                push_str(&mut s, ")");
            },
            DescriptorType::File { path } => {
                push_str(&mut s, "File(");
                push_str(&mut s, path.as_str());
                push_str(&mut s, ")");
            },
            DescriptorType::Unknown => push_str(&mut s, "Unknown"),
        }
        assert(s@ =~= descriptor_text(self@));
        s
    }
}

/// The descriptor a socket-creation record describes: not connected yet.
pub open spec fn spec_socket_descriptor(event: SocketAllocEvent) -> DescriptorType {
    DescriptorType::Socket {
        domain: spec_domain(event.domain),
        type_: event.type_,
        protocol: event.protocol,
        remote_addr: None,
    }
}

impl From<SocketAllocEvent> for DescriptorType {
    fn from(event: SocketAllocEvent) -> (r: DescriptorType)
        ensures
            r == spec_socket_descriptor(event),
    {
        DescriptorType::Socket {
            domain: SocketDomain::from(event.domain),
            type_: event.type_,
            protocol: event.protocol,
            remote_addr: None,
        }
    }
}

impl vstd::std_specs::convert::FromSpecImpl<SocketAllocEvent> for DescriptorType {
    open spec fn obeys_from_spec() -> bool {
        true
    }

    open spec fn from_spec(v: SocketAllocEvent) -> DescriptorType {
        spec_socket_descriptor(v)
    }
}

// ---------------------------------------------------------------------------
// Process records
// ---------------------------------------------------------------------------
/// One observed process. `start_time` (seconds since the epoch) and the
/// binary's path and name are filled in once they have been looked up; until
/// then they are 0 and absent.
pub struct Process {
    pub pid: Pid,
    pub start_time: u64,
    pub binary_path: Option<String>,
    pub binary_name: Option<String>,
    pub fds: HashMap<Fd, DescriptorType>,
}

pub struct ProcessView {
    pub pid: Pid,
    pub start_time: u64,
    pub binary_path: Option<Seq<char>>,
    pub binary_name: Option<Seq<char>>,
    pub fds: Map<Fd, DescriptorView>,
}

pub open spec fn opt_text(s: Option<String>) -> Option<Seq<char>> {
    match s {
        Some(t) => Some(t@),
        None => None,
    }
}

impl View for Process {
    type V = ProcessView;

    open spec fn view(&self) -> ProcessView {
        ProcessView {
            pid: self.pid,
            start_time: self.start_time,
            binary_path: opt_text(self.binary_path),
            binary_name: opt_text(self.binary_name),
            fds: self.fds@.map_values(|d: DescriptorType| d@),
        }
    }
}

/// The record of a process seen for the first time.
pub open spec fn fresh_process(pid: Pid) -> ProcessView {
    ProcessView {
        pid,
        start_time: 0,
        binary_path: None,
        binary_name: None,
        fds: Map::empty(),
    }
}

impl Process {
    pub fn new(pid: Pid) -> (r: Process)
        ensures
            r@ == fresh_process(pid),
    {
        let r = Process {
            pid,
            start_time: 0,
            binary_path: None,
            binary_name: None,
            fds: HashMap::new(),
        };
        assert(r@.fds =~= Map::<Fd, DescriptorView>::empty());
        r
    }
}

// ---------------------------------------------------------------------------
// The concurrent map behind the registry
// ---------------------------------------------------------------------------
#[verifier::external_type_specification]
#[verifier::external_body]
#[verifier::reject_recursive_types(K)]
#[verifier::reject_recursive_types(V)]
#[verifier::reject_recursive_types(S)]
pub struct ExDashMap<K, V, S>(DashMap<K, V, S>);

/// The pid-to-record entries a `DashMap` holds.
pub uninterp spec fn map_entries(m: DashMap<Pid, Process>) -> Map<Pid, Process>;

/// Relies on DashMap::new: the map starts empty.
#[verifier::external_body]
fn map_new() -> (r: DashMap<Pid, Process>)
    ensures
        map_entries(r) =~= Map::empty(),
{
    DashMap::new()
}

/// Relies on DashMap::insert: afterwards `pid` maps to `p`, other entries unchanged.
#[verifier::external_body]
fn map_insert(m: &mut DashMap<Pid, Process>, pid: Pid, p: Process)
    ensures
        map_entries(*final(m)) == map_entries(*old(m)).insert(pid, p),
{
    m.insert(pid, p);
}

/// Relies on DashMap::remove: the entry of `pid` leaves the map and is returned.
#[verifier::external_body]
fn map_remove(m: &mut DashMap<Pid, Process>, pid: Pid) -> (r: Option<Process>)
    ensures
        map_entries(*final(m)) == map_entries(*old(m)).remove(pid),
        r == (if map_entries(*old(m)).contains_key(pid) {
            Some(map_entries(*old(m))[pid])
        } else {
            None
        }),
{
    m.remove(&pid).map(|entry| entry.1)
}

/// Relies on DashMap::contains_key.
#[verifier::external_body]
fn map_contains(m: &DashMap<Pid, Process>, pid: Pid) -> (r: bool)
    ensures
        r == map_entries(*m).contains_key(pid),
{
    m.contains_key(&pid)
}

// ---------------------------------------------------------------------------
// Registry
// ---------------------------------------------------------------------------
/// The registry with `pid` present: a new record when it was not.
pub open spec fn ensure_process(reg: Map<Pid, ProcessView>, pid: Pid) -> Map<Pid, ProcessView> {
    if reg.contains_key(pid) {
        reg
    } else {
        reg.insert(pid, fresh_process(pid))
    }
}

/// The descriptor table of `pid`; empty for a pid not in the registry.
pub open spec fn fds_of(reg: Map<Pid, ProcessView>, pid: Pid) -> Map<Fd, DescriptorView> {
    if reg.contains_key(pid) {
        reg[pid].fds
    } else {
        Map::empty()
    }
}

/// The registry with `pid` present and its descriptor table replaced by `fds`.
pub open spec fn with_fds(reg: Map<Pid, ProcessView>, pid: Pid, fds: Map<Fd, DescriptorView>) -> Map<
    Pid,
    ProcessView,
> {
    let p = ensure_process(reg, pid)[pid];
    reg.insert(
        pid,
        ProcessView {
            pid: p.pid,
            start_time: p.start_time,
            binary_path: p.binary_path,
            binary_name: p.binary_name,
            fds,
        },
    )
}

/// A table after a connect on `fd`: a socket there gets `remote` as its remote end.
pub open spec fn connect_fds(
    fds: Map<Fd, DescriptorView>,
    fd: Fd,
    remote: Option<RemoteAddr>,
) -> Map<Fd, DescriptorView> {
    if fds.contains_key(fd) && fds[fd] is Socket {
        fds.insert(
            fd,
            DescriptorView::Socket {
                domain: fds[fd]->Socket_domain,
                type_: fds[fd]->Socket_type_,
                protocol: fds[fd]->Socket_protocol,
                remote_addr: remote,
            },
        )
    } else {
        fds
    }
}

/// A table after `old_fd` is duplicated onto `new_fd`: only a socket is
/// followed; anything else leaves the table as it was.
pub open spec fn dup_fds(fds: Map<Fd, DescriptorView>, old_fd: Fd, new_fd: Fd) -> Map<
    Fd,
    DescriptorView,
> {
    if fds.contains_key(old_fd) && fds[old_fd] is Socket {
        fds.insert(new_fd, fds[old_fd])
    } else {
        fds
    }
}

/// All observed processes, keyed by pid.
pub struct ProcessRegistry {
    processes: DashMap<Pid, Process>,
}

impl View for ProcessRegistry {
    type V = Map<Pid, ProcessView>;

    closed spec fn view(&self) -> Map<Pid, ProcessView> {
        map_entries(self.processes).map_values(|p: Process| p@)
    }
}

impl ProcessRegistry {
    pub fn new() -> (r: ProcessRegistry)
        ensures
            r@ == Map::<Pid, ProcessView>::empty(),
    {
        let r = ProcessRegistry { processes: map_new() };
        assert(r@ =~= Map::<Pid, ProcessView>::empty());
        r
    }

    /// Takes the record of `pid` out, or makes a new one.
    fn take_or_new(&mut self, pid: Pid) -> (p: Process)
        ensures
            final(self)@ == old(self)@.remove(pid),
            p@ == (if old(self)@.contains_key(pid) {
                old(self)@[pid]
            } else {
                fresh_process(pid)
            }),
    {
        let r = map_remove(&mut self.processes, pid);
        assert(self@ =~= old(self)@.remove(pid));
        match r {
            Some(p) => p,
            None => Process::new(pid),
        }
    }

    fn put(&mut self, pid: Pid, p: Process)
        ensures
            final(self)@ == old(self)@.insert(pid, p@),
    {
        map_insert(&mut self.processes, pid, p);
        assert(self@ =~= old(self)@.insert(pid, p@));
    }

    pub fn contains(&self, pid: Pid) -> (r: bool)
        ensures
            r == self@.contains_key(pid),
    {
        map_contains(&self.processes, pid)
    }

    /// Makes sure `pid` has a record; returns whether one was created.
    pub fn get_or_create(&mut self, pid: Pid) -> (created: bool)
        ensures
            final(self)@ == ensure_process(old(self)@, pid),
            created == !old(self)@.contains_key(pid),
    {
        let created = !self.contains(pid);
        let p = self.take_or_new(pid);
        self.put(pid, p);
        assert(self@ =~= ensure_process(old(self)@, pid));
        created
    }

    /// Drops the record of `pid`.
    pub fn remove(&mut self, pid: Pid)
        ensures
            final(self)@ == old(self)@.remove(pid),
    {
        let _ = map_remove(&mut self.processes, pid);
        assert(self@ =~= old(self)@.remove(pid));
    }

    /// Records when `pid` was first seen and which binary it runs; a pid with
    /// no record is left alone.
    pub fn set_binary(
        &mut self,
        pid: Pid,
        start_time: u64,
        binary_path: Option<String>,
        binary_name: Option<String>,
    )
        ensures
            final(self)@ == (if old(self)@.contains_key(pid) {
                old(self)@.insert(
                    pid,
                    ProcessView {
                        start_time,
                        binary_path: opt_text(binary_path),
                        binary_name: opt_text(binary_name),
                        ..old(self)@[pid]
                    },
                )
            } else {
                old(self)@
            }),
    {
        match map_remove(&mut self.processes, pid) {
            Some(p) => {
                let mut p = p;
                p.start_time = start_time;
                p.binary_path = binary_path;
                p.binary_name = binary_name;
                map_insert(&mut self.processes, pid, p);
                assert(self@ =~= old(self)@.insert(pid, p@));
            },
            None => {
                assert(self@ =~= old(self)@);
            },
        }
    }

    /// The descriptor at (`pid`, `fd`), if the registry has one.
    pub fn descriptor(&mut self, pid: Pid, fd: Fd) -> (r: Option<DescriptorType>)
        ensures
            final(self)@ == old(self)@,
            r is Some <==> fds_of(old(self)@, pid).contains_key(fd),
            r matches Some(d) ==> d@ == fds_of(old(self)@, pid)[fd],
    {
        if !self.contains(pid) {
            return None;
        }
        let p = self.take_or_new(pid);
        let r = match p.fds.get(&fd) {
            Some(d) => Some(d.duplicate()),
            None => None,
        };
        self.put(pid, p);
        assert(self@ =~= old(self)@);
        r
    }

    /// Puts `d` at (`pid`, `fd`), creating the record of `pid` if need be.
    pub fn insert_descriptor(&mut self, pid: Pid, fd: Fd, d: DescriptorType)
        ensures
            final(self)@ == with_fds(old(self)@, pid, fds_of(old(self)@, pid).insert(fd, d@)),
    {
        let mut p = self.take_or_new(pid);
        let ghost d_view = d@;
        p.fds.insert(fd, d);
        assert(p@.fds =~= fds_of(old(self)@, pid).insert(fd, d_view));
        self.put(pid, p);
        assert(self@ =~= with_fds(old(self)@, pid, fds_of(old(self)@, pid).insert(fd, d_view)));
    }

    /// The name of the memory file at (`pid`, `fd`), if that is what it is;
    /// the record of `pid` is created if need be.
    pub fn memfd_name(&mut self, pid: Pid, fd: Fd) -> (r: Option<String>)
        ensures
            final(self)@ == ensure_process(old(self)@, pid),
            r is Some <==> (fds_of(old(self)@, pid).contains_key(fd) && fds_of(
                old(self)@,
                pid,
            )[fd] is Memfd),
            r matches Some(n) ==> fds_of(old(self)@, pid)[fd] == (DescriptorView::Memfd {
                name: n@,
            }),
    {
        let p = self.take_or_new(pid);
        let r = match p.fds.get(&fd) {
            Some(DescriptorType::Memfd { name }) => Some(name.clone()),
            _ => None,
        };
        self.put(pid, p);
        assert(self@ =~= ensure_process(old(self)@, pid));
        r
    }

    /// Sets the remote end of the socket at (`pid`, `fd`); anything else there
    /// is left alone. The record of `pid` is created if need be.
    pub fn set_remote(&mut self, pid: Pid, fd: Fd, remote: Option<RemoteAddr>)
        ensures
            final(self)@ == with_fds(old(self)@, pid, connect_fds(fds_of(old(self)@, pid), fd, remote)),
    {
        let mut p = self.take_or_new(pid);
        let ghost before = p@.fds;
        let next = match p.fds.get(&fd) {
            Some(DescriptorType::Socket { domain, type_, protocol, remote_addr: _ }) => Some(
                DescriptorType::Socket {
                    domain: *domain,
                    type_: *type_,
                    protocol: *protocol,
                    remote_addr: remote,
                },
            ),
            _ => None,
        };
        match next {
            Some(d) => {
                p.fds.insert(fd, d);
            },
            None => {},
        }
        assert(p@.fds =~= connect_fds(before, fd, remote));
        self.put(pid, p);
        assert(self@ =~= with_fds(old(self)@, pid, connect_fds(fds_of(old(self)@, pid), fd, remote)));
    }

    /// Copies the socket at (`pid`, `old_fd`) to `new_fd` and returns its
    /// remote end; anything else at `old_fd` (or nothing) leaves the table
    /// alone and gives `None`. The record of `pid` is created if need be.
    pub fn duplicate_socket(&mut self, pid: Pid, old_fd: Fd, new_fd: Fd) -> (r: Option<
        Option<RemoteAddr>,
    >)
        ensures
            final(self)@ == with_fds(old(self)@, pid, dup_fds(fds_of(old(self)@, pid), old_fd, new_fd)),
            r == (if fds_of(old(self)@, pid).contains_key(old_fd) && fds_of(
                old(self)@,
                pid,
            )[old_fd] is Socket {
                Some(fds_of(old(self)@, pid)[old_fd]->Socket_remote_addr)
            } else {
                None
            }),
    {
        let mut p = self.take_or_new(pid);
        let ghost before = p@.fds;
        let copy = match p.fds.get(&old_fd) {
            Some(DescriptorType::Socket { domain, type_, protocol, remote_addr }) => Some(
                DescriptorType::Socket {
                    domain: *domain,
                    type_: *type_,
                    protocol: *protocol,
                    remote_addr: *remote_addr,
                },
            ),
            _ => None,
        };
        let r = match copy {
            Some(d) => {
                let remote = match &d {
                    DescriptorType::Socket { remote_addr, .. } => *remote_addr,
                    _ => None,
                };
                p.fds.insert(new_fd, d);
                Some(remote)
            },
            None => None,
        };
        assert(p@.fds =~= dup_fds(before, old_fd, new_fd));
        self.put(pid, p);
        assert(self@ =~= with_fds(old(self)@, pid, dup_fds(fds_of(old(self)@, pid), old_fd, new_fd)));
        r
    }
}

// ---------------------------------------------------------------------------
// Facts about the registry's spec functions
// ---------------------------------------------------------------------------
pub(crate) proof fn lemma_fds_of_with_fds(
    reg: Map<Pid, ProcessView>,
    pid: Pid,
    fds: Map<Fd, DescriptorView>,
    q: Pid,
)
    ensures
        with_fds(reg, pid, fds).contains_key(pid),
        fds_of(with_fds(reg, pid, fds), q) == (if q == pid {
            fds
        } else {
            fds_of(reg, q)
        }),
        fds_of(ensure_process(reg, pid), q) == fds_of(reg, q),
{
}

pub(crate) proof fn lemma_with_fds_twice(
    reg: Map<Pid, ProcessView>,
    pid: Pid,
    a: Map<Fd, DescriptorView>,
    b: Map<Fd, DescriptorView>,
)
    ensures
        with_fds(with_fds(reg, pid, a), pid, b) == with_fds(reg, pid, b),
        ensure_process(with_fds(reg, pid, a), pid) == with_fds(reg, pid, a),
        with_fds(ensure_process(reg, pid), pid, b) == with_fds(reg, pid, b),
        ensure_process(ensure_process(reg, pid), pid) == ensure_process(reg, pid),
        with_fds(reg, pid, fds_of(reg, pid)) == ensure_process(reg, pid),
{
    assert(with_fds(with_fds(reg, pid, a), pid, b) =~= with_fds(reg, pid, b));
    assert(ensure_process(with_fds(reg, pid, a), pid) =~= with_fds(reg, pid, a));
    assert(with_fds(ensure_process(reg, pid), pid, b) =~= with_fds(reg, pid, b));
    assert(with_fds(reg, pid, fds_of(reg, pid)) =~= ensure_process(reg, pid));
}

pub(crate) proof fn lemma_connect_fds_twice(
    fds: Map<Fd, DescriptorView>,
    fd: Fd,
    remote: Option<RemoteAddr>,
)
    ensures
        connect_fds(connect_fds(fds, fd, remote), fd, remote) == connect_fds(fds, fd, remote),
{
    assert(connect_fds(connect_fds(fds, fd, remote), fd, remote) =~= connect_fds(fds, fd, remote));
}

pub(crate) proof fn lemma_dup_fds_twice(fds: Map<Fd, DescriptorView>, old_fd: Fd, new_fd: Fd)
    ensures
        dup_fds(dup_fds(fds, old_fd, new_fd), old_fd, new_fd) == dup_fds(fds, old_fd, new_fd),
        fds.contains_key(old_fd) && fds[old_fd] is Socket ==> {
            &&& dup_fds(fds, old_fd, new_fd).contains_key(old_fd)
            &&& dup_fds(fds, old_fd, new_fd)[old_fd] == fds[old_fd]
        },
{
    assert(dup_fds(dup_fds(fds, old_fd, new_fd), old_fd, new_fd) =~= dup_fds(fds, old_fd, new_fd));
}

} // verus!
