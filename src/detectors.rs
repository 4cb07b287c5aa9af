//! The three rules that run over the event stream: fileless execution,
//! reflective code loading and reverse shells.
use vstd::prelude::*;

use crate::abi::{
    i32_at, spec_execve, spec_mmap, spec_socket_alloc, spec_socket_connect, spec_dup, EventHeader,
    DupEvent, ExecveEvent, Fd, HookType, MemfdEvent, MmapEvent, Pid, SocketAllocEvent,
    SocketConnectEvent, DUP_LEN, EXECVE_LEN, FILENAME_LEN, HEADER_LEN, MEMFD_LEN, MMAP_LEN,
    SOCKET_ALLOC_LEN, SOCKET_CONNECT_LEN,
};
use crate::net::{spec_remote, RemoteAddr};
use crate::registry::{
    connect_fds, dup_fds, ensure_process, fds_of, spec_socket_descriptor, with_fds,
    DescriptorType, DescriptorView, ProcessRegistry, ProcessView,
};

verus! {

// ---------------------------------------------------------------------------
// Alerts
// ---------------------------------------------------------------------------
#[derive(Debug, Clone, Copy, PartialEq, Eq, Structural)]
pub enum AlertKind {
    FilelessExecution,
    ReflectiveCodeLoading,
    ReverseShell,
}

/// A detection: the rule that fired, the process, the descriptors involved,
/// the names involved and, for a reverse shell, the remote end if known.
#[derive(Debug, Clone)]
pub struct Alert {
    pub kind: AlertKind,
    pub pid: Pid,
    pub fds: Vec<Fd>,
    pub names: Vec<String>,
    pub remote: Option<RemoteAddr>,
}

pub struct AlertView {
    pub kind: AlertKind,
    pub pid: Pid,
    pub fds: Seq<Fd>,
    pub names: Seq<Seq<char>>,
    pub remote: Option<RemoteAddr>,
}

impl View for Alert {
    type V = AlertView;

    open spec fn view(&self) -> AlertView {
        AlertView {
            kind: self.kind,
            pid: self.pid,
            fds: self.fds@,
            names: self.names@.map_values(|s: String| s@),
            remote: self.remote,
        }
    }
}

pub open spec fn opt_alert_view(a: Option<Alert>) -> Option<AlertView> {
    match a {
        Some(x) => Some(x@),
        None => None,
    }
}

impl AlertKind {
    pub open spec fn spec_label(self) -> Seq<char> {
        match self {
            AlertKind::FilelessExecution => "FILELESS_EXECUTION"@,
            AlertKind::ReflectiveCodeLoading => "REFLECTIVE_CODE_LOADING"@,
            AlertKind::ReverseShell => "REVERSE_SHELL"@,
        }
    }

    /// The name under which alerts of this kind are reported.
    pub fn label(&self) -> (r: &'static str)
        ensures
            r@ == self.spec_label(),
    {
        match self {
            AlertKind::FilelessExecution => "FILELESS_EXECUTION",
            AlertKind::ReflectiveCodeLoading => "REFLECTIVE_CODE_LOADING",
            AlertKind::ReverseShell => "REVERSE_SHELL",
        }
    }
}

impl Alert {
    /// The remote end as `a.b.c.d:port`, or `Unknown`.
    pub fn remote_text(&self) -> (r: String)
        ensures
            r@ == (match self.remote {
                Some(a) => a.spec_text(),
                None => "Unknown"@,
            }),
    {
        match self.remote {
            Some(a) => a.to_text(),
            None => {
                let mut s = String::new();
                s.append("Unknown");
                s
            },
        }
    }
}

// ---------------------------------------------------------------------------
// Memory-file names
// ---------------------------------------------------------------------------
/// The bytes of `b` before its first NUL (all of `b` when it has none).
pub open spec fn until_nul(b: Seq<u8>) -> Seq<u8>
    decreases b.len(),
{
    if b.len() == 0 {
        b
    } else if b[0] == 0 {
        Seq::empty()
    } else {
        seq![b[0]] + until_nul(b.drop_first())
    }
}

proof fn lemma_until_nul(b: Seq<u8>, i: int)
    requires
        0 <= i <= b.len(),
        forall|j: int| 0 <= j < i ==> b[j] != 0,
        i == b.len() || b[i] == 0,
    ensures
        until_nul(b) == b.subrange(0, i),
    decreases b.len(),
{
    if b.len() == 0 {
        assert(b.subrange(0, i) =~= b);
    } else if b[0] == 0 {
        assert(b.subrange(0, i) =~= Seq::<u8>::empty());
    } else {
        let t = b.drop_first();
        assert forall|j: int| 0 <= j < i - 1 implies t[j] != 0 by {
            assert(t[j] == b[j + 1]);
        }
        lemma_until_nul(t, i - 1);
        assert(seq![b[0]] + t.subrange(0, i - 1) =~= b.subrange(0, i));
    }
}

/// The text of a byte string decoded as UTF-8, each invalid sequence
/// replaced by U+FFFD.
pub uninterp spec fn lossy_text(b: Seq<u8>) -> Seq<char>;

/// Relies on String::from_utf8_lossy: the text depends on the bytes alone.
#[verifier::external_body]
fn utf8_lossy(b: &[u8]) -> (r: String)
    ensures
        r@ == lossy_text(b@),
{
    String::from_utf8_lossy(b).into_owned()
}

/// The name a memory file is tracked under: its filename buffer cut at the
/// first NUL, decoded as UTF-8.
pub open spec fn spec_memfd_name(filename: Seq<u8>) -> Seq<char> {
    lossy_text(until_nul(filename))
}

pub fn memfd_display_name(filename: &[u8; 64]) -> (r: String)
    ensures
        r@ == spec_memfd_name(filename@),
{
    let mut out: Vec<u8> = Vec::new();
    let mut i: usize = 0;
    while i < FILENAME_LEN && filename[i] != 0
        invariant
            i <= FILENAME_LEN,
            filename@.len() == FILENAME_LEN,
            out@ == filename@.subrange(0, i as int),
            forall|j: int| 0 <= j < i ==> filename@[j] != 0,
        decreases FILENAME_LEN - i,
    {
        out.push(filename[i]);
        i += 1;
        assert(out@ =~= filename@.subrange(0, i as int));
    }
    proof {
        lemma_until_nul(filename@, i as int);
    }
    utf8_lossy(out.as_slice())
}

// ---------------------------------------------------------------------------
// What each rule does to the registry, and what it reports
// ---------------------------------------------------------------------------
pub open spec fn memfd_alert(kind: AlertKind, pid: Pid, fd: Fd, d: DescriptorView) -> AlertView {
    AlertView { kind, pid, fds: seq![fd], names: seq![d->Memfd_name], remote: None }
}

pub open spec fn fileless_step(h: EventHeader, data: Seq<u8>, reg: Map<Pid, ProcessView>) -> (
    Map<Pid, ProcessView>,
    Option<AlertView>,
) {
    if h.event_type == HookType::Memfd && data.len() >= MEMFD_LEN {
        let fd = i32_at(data, 76);
        let name = spec_memfd_name(data.subrange(HEADER_LEN as int, HEADER_LEN + FILENAME_LEN));
        (
            with_fds(reg, h.pid, fds_of(reg, h.pid).insert(fd, DescriptorView::Memfd { name })),
            None,
        )
    } else if h.event_type == HookType::Execve && data.len() >= EXECVE_LEN {
        let fd = spec_execve(data).fd;
        let fds = fds_of(reg, h.pid);
        (
            ensure_process(reg, h.pid),
            if fds.contains_key(fd) && fds[fd] is Memfd {
                Some(memfd_alert(AlertKind::FilelessExecution, h.pid, fd, fds[fd]))
            } else {
                None
            },
        )
    } else {
        (reg, None)
    }
}

/// Write and execute permission bits of a mapping.
pub const PROT_WRITE: u32 = 0x2;

pub const PROT_EXEC: u32 = 0x4;

pub open spec fn reflective_step(h: EventHeader, data: Seq<u8>, reg: Map<Pid, ProcessView>) -> (
    Map<Pid, ProcessView>,
    Option<AlertView>,
) {
    if h.event_type == HookType::Mmap && data.len() >= MMAP_LEN && spec_mmap(data).prot & (
    PROT_WRITE | PROT_EXEC) == (PROT_WRITE | PROT_EXEC) {
        let fd = spec_mmap(data).fd;
        let fds = fds_of(reg, h.pid);
        (
            ensure_process(reg, h.pid),
            if fds.contains_key(fd) && fds[fd] is Memfd {
                Some(memfd_alert(AlertKind::ReflectiveCodeLoading, h.pid, fd, fds[fd]))
            } else {
                None
            },
        )
    } else {
        (reg, None)
    }
}

pub open spec fn is_stdio(fd: Fd) -> bool {
    0 <= fd <= 2
}

pub open spec fn reverse_shell_step(
    h: EventHeader,
    data: Seq<u8>,
    reg: Map<Pid, ProcessView>,
) -> (Map<Pid, ProcessView>, Option<AlertView>) {
    let fds = fds_of(reg, h.pid);
    if h.event_type == HookType::SocketAlloc && data.len() >= SOCKET_ALLOC_LEN {
        let e = spec_socket_alloc(data);
        (with_fds(reg, h.pid, fds.insert(e.fd, spec_socket_descriptor(e)@)), None)
    } else if h.event_type == HookType::SocketConnect && data.len() >= SOCKET_CONNECT_LEN {
        let e = spec_socket_connect(data);
        (with_fds(reg, h.pid, connect_fds(fds, e.fd, spec_remote(e))), None)
    } else if h.event_type == HookType::Dup && data.len() >= DUP_LEN {
        let e = spec_dup(data);
        (
            with_fds(reg, h.pid, dup_fds(fds, e.old_fd, e.new_fd)),
            if fds.contains_key(e.old_fd) && fds[e.old_fd] is Socket && is_stdio(e.new_fd) {
                Some(
                    AlertView {
                        kind: AlertKind::ReverseShell,
                        pid: h.pid,
                        fds: seq![e.old_fd, e.new_fd],
                        names: Seq::empty(),
                        remote: fds[e.old_fd]->Socket_remote_addr,
                    },
                )
            } else {
                None
            },
        )
    } else {
        (reg, None)
    }
}

// ---------------------------------------------------------------------------
// Detectors
// ---------------------------------------------------------------------------
/// A rule over the event stream. `header` is the decoded start of `data`,
/// the whole record; the rule may update the registry and may raise an alert.
pub trait Detector {
    spec fn spec_name(&self) -> Seq<char>;

    spec fn spec_on_event(&self, header: EventHeader, data: Seq<u8>, reg: Map<Pid, ProcessView>) -> (
        Map<Pid, ProcessView>,
        Option<AlertView>,
    );

    fn name(&self) -> (r: &'static str)
        ensures
            r@ == self.spec_name(),
    ;

    fn on_event(&self, header: &EventHeader, data: &[u8], registry: &mut ProcessRegistry) -> (r:
        Option<Alert>)
        ensures
            (final(registry)@, opt_alert_view(r)) == self.spec_on_event(
                *header,
                data@,
                old(registry)@,
            ),
    ;
}

/// Tracks memory files and reports executing one.
#[derive(Debug, Clone, Copy, PartialEq, Eq, Structural)]
pub struct FilelessDetector;

/// Reports a writable and executable mapping of a memory file.
#[derive(Debug, Clone, Copy, PartialEq, Eq, Structural)]
pub struct ReflectiveLoaderDetector;

/// Tracks sockets and reports one duplicated onto standard input, output or error.
#[derive(Debug, Clone, Copy, PartialEq, Eq, Structural)]
pub struct ReverseShellDetector;

impl Detector for FilelessDetector {
    open spec fn spec_name(&self) -> Seq<char> {
        "Fileless Execution Detector"@
    }

    open spec fn spec_on_event(&self, header: EventHeader, data: Seq<u8>, reg: Map<Pid, ProcessView>) -> (
        Map<Pid, ProcessView>,
        Option<AlertView>,
    ) {
        fileless_step(header, data, reg)
    }

    fn name(&self) -> (r: &'static str) {
        "Fileless Execution Detector"
    }

    fn on_event(&self, header: &EventHeader, data: &[u8], registry: &mut ProcessRegistry) -> (r:
        Option<Alert>) {
        match header.event_type {
            HookType::Memfd => {
                match MemfdEvent::decode(data) {
                    Some(event) => {
                        assert(event.filename@ =~= data@.subrange(HEADER_LEN as int, HEADER_LEN + FILENAME_LEN));
                        let name = memfd_display_name(&event.filename);
                        registry.insert_descriptor(
                            header.pid,
                            event.fd,
                            DescriptorType::Memfd { name },
                        );
                        None
                    },
                    None => None,
                }
            },
            HookType::Execve => {
                match ExecveEvent::decode(data) {
                    Some(event) => {
                        match registry.memfd_name(header.pid, event.fd) {
                            Some(name) => {
                                let a = Alert {
                                    kind: AlertKind::FilelessExecution,
                                    pid: header.pid,
                                    fds: vec![event.fd],
                                    names: vec![name],
                                    remote: None,
                                };
                                assert(a@.names =~= seq![name@]);
                                assert(a@.fds =~= seq![event.fd]);
                                Some(a)
                            },
                            None => None,
                        }
                    },
                    None => None,
                }
            },
            _ => None,
        }
    }
}

impl Detector for ReflectiveLoaderDetector {
    open spec fn spec_name(&self) -> Seq<char> {
        "Reflective Loading Detector"@
    }

    open spec fn spec_on_event(&self, header: EventHeader, data: Seq<u8>, reg: Map<Pid, ProcessView>) -> (
        Map<Pid, ProcessView>,
        Option<AlertView>,
    ) {
        reflective_step(header, data, reg)
    }

    fn name(&self) -> (r: &'static str) {
        "Reflective Loading Detector"
    }

    fn on_event(&self, header: &EventHeader, data: &[u8], registry: &mut ProcessRegistry) -> (r:
        Option<Alert>) {
        if header.event_type != HookType::Mmap {
            return None;
        }
        let event = match MmapEvent::decode(data) {
            Some(e) => e,
            None => {
                return None;
            },
        };
        if event.prot & (PROT_WRITE | PROT_EXEC) != (PROT_WRITE | PROT_EXEC) {
            return None;
        }
        match registry.memfd_name(header.pid, event.fd) {
            Some(name) => {
                let a = Alert {
                    kind: AlertKind::ReflectiveCodeLoading,
                    pid: header.pid,
                    fds: vec![event.fd],
                    names: vec![name],
                    remote: None,
                };
                assert(a@.names =~= seq![name@]);
                assert(a@.fds =~= seq![event.fd]);
                Some(a)
            },
            None => None,
        }
    }
}

impl Detector for ReverseShellDetector {
    open spec fn spec_name(&self) -> Seq<char> {
        "ReverseShellDetector"@
    }

    open spec fn spec_on_event(&self, header: EventHeader, data: Seq<u8>, reg: Map<Pid, ProcessView>) -> (
        Map<Pid, ProcessView>,
        Option<AlertView>,
    ) {
        reverse_shell_step(header, data, reg)
    }

    fn name(&self) -> (r: &'static str) {
        "ReverseShellDetector"
    }

    fn on_event(&self, header: &EventHeader, data: &[u8], registry: &mut ProcessRegistry) -> (r:
        Option<Alert>) {
        match header.event_type {
            HookType::SocketAlloc => {
                match SocketAllocEvent::decode(data) {
                    Some(event) => {
                        registry.insert_descriptor(header.pid, event.fd, DescriptorType::from(event));
                        None
                    },
                    None => None,
                }
            },
            HookType::SocketConnect => {
                match SocketConnectEvent::decode(data) {
                    Some(event) => {
                        registry.set_remote(header.pid, event.fd, event.to_socket_addr());
                        None
                    },
                    None => None,
                }
            },
            HookType::Dup => {
                match DupEvent::decode(data) {
                    Some(event) => {
                        match registry.duplicate_socket(header.pid, event.old_fd, event.new_fd) {
                            Some(remote) => {
                                if 0 <= event.new_fd && event.new_fd <= 2 {
                                    let a = Alert {
                                        kind: AlertKind::ReverseShell,
                                        pid: header.pid,
                                        fds: vec![event.old_fd, event.new_fd],
                                        names: Vec::new(),
                                        remote,
                                    };
                                    assert(a@.names =~= Seq::<Seq<char>>::empty());
                                    Some(a)
                                } else {
                                    None
                                }
                            },
                            None => None,
                        }
                    },
                    None => None,
                }
            },
            _ => None,
        }
    }
}

} // verus!
