//! The event bus: checks that a record is long enough to hold a header,
//! decodes the header and hands the record to every registered detector.
use vstd::prelude::*;

use crate::abi::{
    i32_at, spec_dup, spec_header, spec_mmap, spec_socket_alloc, spec_socket_connect, EventHeader,
    Fd, HookType, Pid, DUP_LEN, FILENAME_LEN, HEADER_LEN, MEMFD_LEN, MMAP_LEN, SOCKET_ALLOC_LEN,
    SOCKET_CONNECT_LEN,
};
use crate::detectors::{
    fileless_step, reflective_step, reverse_shell_step, spec_memfd_name, Alert, AlertView, Detector,
    FilelessDetector, ReflectiveLoaderDetector, ReverseShellDetector, PROT_EXEC, PROT_WRITE,
};
use crate::registry::{
    connect_fds, dup_fds, fds_of, lemma_connect_fds_twice, lemma_dup_fds_twice,
    lemma_fds_of_with_fds, lemma_with_fds_twice, spec_socket_descriptor, DescriptorView,
    ProcessRegistry, ProcessView,
};

verus! {

/// One of the detectors the bus can run.
#[derive(Debug, Clone, Copy, PartialEq, Eq, Structural)]
pub enum AnyDetector {
    Fileless(FilelessDetector),
    Reflective(ReflectiveLoaderDetector),
    ReverseShell(ReverseShellDetector),
}

impl Detector for AnyDetector {
    open spec fn spec_name(&self) -> Seq<char> {
        match self {
            AnyDetector::Fileless(d) => d.spec_name(),
            AnyDetector::Reflective(d) => d.spec_name(),
            AnyDetector::ReverseShell(d) => d.spec_name(),
        }
    }

    open spec fn spec_on_event(&self, header: EventHeader, data: Seq<u8>, reg: Map<Pid, ProcessView>) -> (
        Map<Pid, ProcessView>,
        Option<AlertView>,
    ) {
        match self {
            AnyDetector::Fileless(d) => d.spec_on_event(header, data, reg),
            AnyDetector::Reflective(d) => d.spec_on_event(header, data, reg),
            AnyDetector::ReverseShell(d) => d.spec_on_event(header, data, reg),
        }
    }

    fn name(&self) -> (r: &'static str) {
        match self {
            AnyDetector::Fileless(d) => d.name(),
            AnyDetector::Reflective(d) => d.name(),
            AnyDetector::ReverseShell(d) => d.name(),
        }
    }

    fn on_event(&self, header: &EventHeader, data: &[u8], registry: &mut ProcessRegistry) -> (r:
        Option<Alert>) {
        match self {
            AnyDetector::Fileless(d) => d.on_event(header, data, registry),
            AnyDetector::Reflective(d) => d.on_event(header, data, registry),
            AnyDetector::ReverseShell(d) => d.on_event(header, data, registry),
        }
    }
}

pub open spec fn alerts_view(s: Seq<Alert>) -> Seq<AlertView> {
    s.map_values(|a: Alert| a@)
}

/// The registry and the alerts after `dets` have run, in order, over one record.
pub open spec fn chain(
    dets: Seq<AnyDetector>,
    h: EventHeader,
    data: Seq<u8>,
    reg: Map<Pid, ProcessView>,
) -> (Map<Pid, ProcessView>, Seq<AlertView>)
    decreases dets.len(),
{
    if dets.len() == 0 {
        (reg, Seq::empty())
    } else {
        let prev = chain(dets.drop_last(), h, data, reg);
        let step = dets.last().spec_on_event(h, data, prev.0);
        (
            step.0,
            match step.1 {
                Some(a) => prev.1.push(a),
                None => prev.1,
            },
        )
    }
}

/// What the bus does with one buffer: one too short for a header is dropped.
pub open spec fn bus_step(dets: Seq<AnyDetector>, buf: Seq<u8>, reg: Map<Pid, ProcessView>) -> (
    Map<Pid, ProcessView>,
    Seq<AlertView>,
) {
    if buf.len() < HEADER_LEN {
        (reg, Seq::empty())
    } else {
        chain(dets, spec_header(buf), buf, reg)
    }
}

/// The registered detectors, in the order they run, and the registry they share.
pub struct EventBus {
    pub detectors: Vec<AnyDetector>,
    pub registry: ProcessRegistry,
}

impl EventBus {
    pub fn new(registry: ProcessRegistry) -> (r: EventBus)
        ensures
            r.detectors@ == Seq::<AnyDetector>::empty(),
            r.registry == registry,
    {
        EventBus { detectors: Vec::new(), registry }
    }

    /// Adds a detector; it runs after those registered before it.
    pub fn register(&mut self, detector: AnyDetector)
        ensures
            final(self).detectors@ == old(self).detectors@.push(detector),
            final(self).registry == old(self).registry,
    {
        self.detectors.push(detector);
    }

    /// Handles one record from the ring: every detector sees it in turn, and
    /// the alerts they raise are returned in that order.
    pub fn process_packet(&mut self, buf: &[u8]) -> (r: Vec<Alert>)
        ensures
            final(self).detectors@ == old(self).detectors@,
            (final(self).registry@, alerts_view(r@)) == bus_step(
                old(self).detectors@,
                buf@,
                old(self).registry@,
            ),
            buf@.len() < HEADER_LEN ==> final(self).registry@ == old(self).registry@ && r@.len()
                == 0,
    {
        let header = match EventHeader::decode(buf) {
            Some(h) => h,
            None => {
                let r: Vec<Alert> = Vec::new();
                assert(alerts_view(r@) =~= Seq::<AlertView>::empty());
                return r;
            },
        };
        let mut alerts: Vec<Alert> = Vec::new();
        let mut i: usize = 0;
        assert(self.detectors@.subrange(0, 0) =~= Seq::<AnyDetector>::empty());
        assert(alerts_view(alerts@) =~= Seq::<AlertView>::empty());
        while i < self.detectors.len()
            invariant
                i <= self.detectors@.len(),
                self.detectors@ == old(self).detectors@,
                header == spec_header(buf@),
                buf@.len() >= HEADER_LEN,
                (self.registry@, alerts_view(alerts@)) == chain(
                    self.detectors@.subrange(0, i as int),
                    header,
                    buf@,
                    old(self).registry@,
                ),
            decreases self.detectors@.len() - i,
        {
            let d = self.detectors[i];
            let ghost prev_alerts = alerts@;
            let a = d.on_event(&header, buf, &mut self.registry);
            match a {
                Some(x) => {
                    alerts.push(x);
                    assert(alerts_view(alerts@) =~= alerts_view(prev_alerts).push(x@));
                },
                None => {},
            }
            i += 1;
            assert(self.detectors@.subrange(0, i as int).drop_last() =~= self.detectors@.subrange(
                0,
                i - 1,
            ));
        }
        assert(self.detectors@.subrange(0, i as int) =~= self.detectors@);
        alerts
    }
}

// ---------------------------------------------------------------------------
// Laws of the registry under the detector chain
// ---------------------------------------------------------------------------
/// Whether `d` acts on records of kind `k`.
pub open spec fn handles(d: AnyDetector, k: HookType) -> bool {
    match d {
        AnyDetector::Fileless(_) => k == HookType::Memfd || k == HookType::Execve,
        AnyDetector::Reflective(_) => k == HookType::Mmap,
        AnyDetector::ReverseShell(_) => k == HookType::SocketAlloc || k == HookType::SocketConnect
            || k == HookType::Dup,
    }
}

pub open spec fn any_handles(dets: Seq<AnyDetector>, k: HookType) -> bool {
    exists|i: int| 0 <= i < dets.len() && handles(#[trigger] dets[i], k)
}

/// What the rule responsible for a record's kind does with it.
pub open spec fn event_step(h: EventHeader, data: Seq<u8>, reg: Map<Pid, ProcessView>) -> (
    Map<Pid, ProcessView>,
    Option<AlertView>,
) {
    match h.event_type {
        HookType::Memfd | HookType::Execve => fileless_step(h, data, reg),
        HookType::Mmap => reflective_step(h, data, reg),
        HookType::SocketAlloc | HookType::SocketConnect | HookType::Dup => reverse_shell_step(
            h,
            data,
            reg,
        ),
        HookType::Unknown => (reg, None),
    }
}

proof fn lemma_detector_step(d: AnyDetector, h: EventHeader, data: Seq<u8>, reg: Map<Pid, ProcessView>)
    ensures
        d.spec_on_event(h, data, reg) == (if handles(d, h.event_type) {
            event_step(h, data, reg)
        } else {
            (reg, None)
        }),
{
}

proof fn lemma_event_step_twice(h: EventHeader, data: Seq<u8>, reg: Map<Pid, ProcessView>)
    ensures
        event_step(h, data, event_step(h, data, reg).0) == event_step(h, data, reg),
{
    let pid = h.pid;
    let fds = fds_of(reg, pid);
    let once = event_step(h, data, reg).0;
    if h.event_type == HookType::Memfd && data.len() >= MEMFD_LEN {
        let fd = i32_at(data, 76);
        let name = spec_memfd_name(data.subrange(HEADER_LEN as int, HEADER_LEN + FILENAME_LEN));
        let x = fds.insert(fd, DescriptorView::Memfd { name });
        lemma_fds_of_with_fds(reg, pid, x, pid);
        assert(x.insert(fd, DescriptorView::Memfd { name }) =~= x);
        lemma_with_fds_twice(reg, pid, x, x);
    } else if h.event_type == HookType::Execve && data.len() >= 20 {
        lemma_fds_of_with_fds(reg, pid, fds, pid);
        lemma_with_fds_twice(reg, pid, fds, fds);
    } else if h.event_type == HookType::Mmap && data.len() >= MMAP_LEN && spec_mmap(data).prot & (
    PROT_WRITE | PROT_EXEC) == (PROT_WRITE | PROT_EXEC) {
        lemma_fds_of_with_fds(reg, pid, fds, pid);
        lemma_with_fds_twice(reg, pid, fds, fds);
    } else if h.event_type == HookType::SocketAlloc && data.len() >= SOCKET_ALLOC_LEN {
        let e = spec_socket_alloc(data);
        let x = fds.insert(e.fd, spec_socket_descriptor(e)@);
        lemma_fds_of_with_fds(reg, pid, x, pid);
        assert(x.insert(e.fd, spec_socket_descriptor(e)@) =~= x);
        lemma_with_fds_twice(reg, pid, x, x);
    } else if h.event_type == HookType::SocketConnect && data.len() >= SOCKET_CONNECT_LEN {
        let e = spec_socket_connect(data);
        let x = connect_fds(fds, e.fd, crate::net::spec_remote(e));
        lemma_fds_of_with_fds(reg, pid, x, pid);
        lemma_connect_fds_twice(fds, e.fd, crate::net::spec_remote(e));
        lemma_with_fds_twice(reg, pid, x, x);
    } else if h.event_type == HookType::Dup && data.len() >= DUP_LEN {
        let e = spec_dup(data);
        let x = dup_fds(fds, e.old_fd, e.new_fd);
        lemma_fds_of_with_fds(reg, pid, x, pid);
        lemma_dup_fds_twice(fds, e.old_fd, e.new_fd);
        lemma_with_fds_twice(reg, pid, x, x);
    }
}

/// Running a chain amounts to running the responsible rule once, when the
/// chain holds a detector for the record's kind, and to nothing otherwise;
/// every alert raised is that rule's alert.
proof fn lemma_chain_shape(
    dets: Seq<AnyDetector>,
    h: EventHeader,
    data: Seq<u8>,
    reg: Map<Pid, ProcessView>,
)
    ensures
        chain(dets, h, data, reg).0 == (if any_handles(dets, h.event_type) {
            event_step(h, data, reg).0
        } else {
            reg
        }),
        forall|i: int|
            0 <= i < chain(dets, h, data, reg).1.len() ==> event_step(h, data, reg).1 == Some(
                #[trigger] chain(dets, h, data, reg).1[i],
            ),
    decreases dets.len(),
{
    if dets.len() > 0 {
        let rest = dets.drop_last();
        lemma_chain_shape(rest, h, data, reg);
        lemma_detector_step(dets.last(), h, data, chain(rest, h, data, reg).0);
        lemma_event_step_twice(h, data, reg);
        if any_handles(rest, h.event_type) {
            let i = choose|i: int| 0 <= i < rest.len() && handles(#[trigger] rest[i], h.event_type);
            assert(dets[i] == rest[i]);
        } else if handles(dets.last(), h.event_type) {
            assert(handles(dets[dets.len() - 1], h.event_type));
        } else {
            assert forall|i: int| 0 <= i < dets.len() implies !handles(
                #[trigger] dets[i],
                h.event_type,
            ) by {
                if i < dets.len() - 1 {
                    assert(dets[i] == rest[i]);
                }
            }
        }
        let c = chain(dets, h, data, reg).1;
        assert forall|i: int| 0 <= i < c.len() implies event_step(h, data, reg).1 == Some(
            #[trigger] c[i],
        ) by {
            if i < chain(rest, h, data, reg).1.len() {
                assert(c[i] == chain(rest, h, data, reg).1[i]);
            }
        }
    }
}

/// Idempotence: running the bus twice on the same record leaves the registry
/// as running it once does, and the second run raises the same alerts.
pub proof fn lemma_bus_idempotent(dets: Seq<AnyDetector>, buf: Seq<u8>, reg: Map<Pid, ProcessView>)
    ensures
        bus_step(dets, buf, bus_step(dets, buf, reg).0).0 == bus_step(dets, buf, reg).0,
        bus_step(dets, buf, bus_step(dets, buf, reg).0).1 == bus_step(dets, buf, reg).1,
{
    if buf.len() >= HEADER_LEN {
        let h = spec_header(buf);
        lemma_chain_shape(dets, h, buf, reg);
        lemma_chain_shape(dets, h, buf, chain(dets, h, buf, reg).0);
        lemma_event_step_twice(h, buf, reg);
        lemma_chain_alerts_only_depend_on_step(dets, h, buf, reg, chain(dets, h, buf, reg).0);
    }
}

/// Two registries on which the responsible rule raises the same alert get
/// the same alerts from a chain.
proof fn lemma_chain_alerts_only_depend_on_step(
    dets: Seq<AnyDetector>,
    h: EventHeader,
    data: Seq<u8>,
    r1: Map<Pid, ProcessView>,
    r2: Map<Pid, ProcessView>,
)
    requires
        event_step(h, data, r1).1 == event_step(h, data, r2).1,
        event_step(h, data, event_step(h, data, r1).0).1 == event_step(h, data, r1).1,
        event_step(h, data, event_step(h, data, r2).0).1 == event_step(h, data, r2).1,
    ensures
        chain(dets, h, data, r1).1 == chain(dets, h, data, r2).1,
    decreases dets.len(),
{
    if dets.len() > 0 {
        let rest = dets.drop_last();
        lemma_chain_alerts_only_depend_on_step(rest, h, data, r1, r2);
        lemma_chain_shape(rest, h, data, r1);
        lemma_chain_shape(rest, h, data, r2);
        lemma_detector_step(dets.last(), h, data, chain(rest, h, data, r1).0);
        lemma_detector_step(dets.last(), h, data, chain(rest, h, data, r2).0);
    }
}

/// A buffer too short for a header is dropped: the registry is unchanged and
/// nothing is raised.
pub proof fn lemma_short_buffer_dropped(
    dets: Seq<AnyDetector>,
    buf: Seq<u8>,
    reg: Map<Pid, ProcessView>,
)
    requires
        buf.len() < HEADER_LEN,
    ensures
        bus_step(dets, buf, reg) == (reg, Seq::<AlertView>::empty()),
{
}

/// A duplication whose old descriptor is not in its process's table changes
/// no descriptor table and raises nothing.
pub proof fn lemma_dup_of_unknown_fd(dets: Seq<AnyDetector>, buf: Seq<u8>, reg: Map<Pid, ProcessView>)
    requires
        buf.len() >= DUP_LEN,
        spec_header(buf).event_type == HookType::Dup,
        !fds_of(reg, spec_header(buf).pid).contains_key(spec_dup(buf).old_fd),
    ensures
        forall|p: Pid| #[trigger] fds_of(bus_step(dets, buf, reg).0, p) == fds_of(reg, p),
        bus_step(dets, buf, reg).1.len() == 0,
{
    let h = spec_header(buf);
    lemma_chain_shape(dets, h, buf, reg);
    let fds = fds_of(reg, h.pid);
    let e = spec_dup(buf);
    assert(dup_fds(fds, e.old_fd, e.new_fd) == fds);
    assert forall|p: Pid| #[trigger] fds_of(bus_step(dets, buf, reg).0, p) == fds_of(reg, p) by {
        lemma_fds_of_with_fds(reg, h.pid, fds, p);
    }
    if bus_step(dets, buf, reg).1.len() > 0 {
        assert(event_step(h, buf, reg).1 == Some(bus_step(dets, buf, reg).1[0]));
    }
}

/// A mapping whose protection lacks write or execute raises nothing and
/// leaves the registry as it was, whatever the descriptor tables hold.
pub proof fn lemma_mmap_without_write_exec(
    dets: Seq<AnyDetector>,
    buf: Seq<u8>,
    reg: Map<Pid, ProcessView>,
)
    requires
        buf.len() >= HEADER_LEN,
        spec_header(buf).event_type == HookType::Mmap,
        buf.len() < MMAP_LEN || spec_mmap(buf).prot & (PROT_WRITE | PROT_EXEC) != (PROT_WRITE
            | PROT_EXEC),
    ensures
        bus_step(dets, buf, reg).0 == reg,
        bus_step(dets, buf, reg).1.len() == 0,
{
    let h = spec_header(buf);
    lemma_chain_shape(dets, h, buf, reg);
    if bus_step(dets, buf, reg).1.len() > 0 {
        assert(event_step(h, buf, reg).1 == Some(bus_step(dets, buf, reg).1[0]));
    }
}

/// The descriptor a record puts at (`p`, `f`), if it puts one there: a new
/// memory file or socket under that number, or a socket duplicated onto it.
pub open spec fn placed_descriptor(
    h: EventHeader,
    data: Seq<u8>,
    reg: Map<Pid, ProcessView>,
    p: Pid,
    f: Fd,
) -> Option<DescriptorView> {
    let fds = fds_of(reg, p);
    if h.pid != p {
        None
    } else if h.event_type == HookType::Memfd && data.len() >= MEMFD_LEN && i32_at(data, 76) == f {
        Some(
            DescriptorView::Memfd {
                name: spec_memfd_name(data.subrange(HEADER_LEN as int, HEADER_LEN + FILENAME_LEN)),
            },
        )
    } else if h.event_type == HookType::SocketAlloc && data.len() >= SOCKET_ALLOC_LEN
        && spec_socket_alloc(data).fd == f {
        Some(spec_socket_descriptor(spec_socket_alloc(data))@)
    } else if h.event_type == HookType::Dup && data.len() >= DUP_LEN && spec_dup(data).new_fd == f
        && fds.contains_key(spec_dup(data).old_fd) && fds[spec_dup(data).old_fd] is Socket {
        Some(fds[spec_dup(data).old_fd])
    } else {
        None
    }
}

/// Whether a record is a connect on (`p`, `f`), which may set a socket's remote end.
pub open spec fn connects(h: EventHeader, data: Seq<u8>, p: Pid, f: Fd) -> bool {
    h.pid == p && h.event_type == HookType::SocketConnect && data.len() >= SOCKET_CONNECT_LEN
        && spec_socket_connect(data).fd == f
}

/// The descriptor at (`p`, `f`) is the one most recently placed there: a
/// record that places one (with a detector for its kind registered) leaves
/// exactly that descriptor; any other record, a connect on (`p`, `f`) aside,
/// leaves the entry as it was.
pub proof fn lemma_latest_descriptor(
    dets: Seq<AnyDetector>,
    buf: Seq<u8>,
    reg: Map<Pid, ProcessView>,
    p: Pid,
    f: Fd,
)
    requires
        buf.len() >= HEADER_LEN,
    ensures
        ({
            let h = spec_header(buf);
            let after = fds_of(bus_step(dets, buf, reg).0, p);
            &&& placed_descriptor(h, buf, reg, p, f) is Some && any_handles(dets, h.event_type)
                ==> after.contains_key(f) && after[f] == placed_descriptor(h, buf, reg, p, f)->0
            &&& placed_descriptor(h, buf, reg, p, f) is None && !connects(h, buf, p, f) ==> {
                &&& after.contains_key(f) == fds_of(reg, p).contains_key(f)
                &&& after.contains_key(f) ==> after[f] == fds_of(reg, p)[f]
            }
        }),
{
    let h = spec_header(buf);
    let pid = h.pid;
    let fds = fds_of(reg, pid);
    lemma_chain_shape(dets, h, buf, reg);
    if any_handles(dets, h.event_type) {
        if h.event_type == HookType::Memfd && buf.len() >= MEMFD_LEN {
            let fd = i32_at(buf, 76);
            let name = spec_memfd_name(buf.subrange(HEADER_LEN as int, HEADER_LEN + FILENAME_LEN));
            lemma_fds_of_with_fds(reg, pid, fds.insert(fd, DescriptorView::Memfd { name }), p);
        } else if h.event_type == HookType::SocketAlloc && buf.len() >= SOCKET_ALLOC_LEN {
            let e = spec_socket_alloc(buf);
            lemma_fds_of_with_fds(reg, pid, fds.insert(e.fd, spec_socket_descriptor(e)@), p);
        } else if h.event_type == HookType::SocketConnect && buf.len() >= SOCKET_CONNECT_LEN {
            let e = spec_socket_connect(buf);
            lemma_fds_of_with_fds(reg, pid, connect_fds(fds, e.fd, crate::net::spec_remote(e)), p);
        } else if h.event_type == HookType::Dup && buf.len() >= DUP_LEN {
            let e = spec_dup(buf);
            lemma_fds_of_with_fds(reg, pid, dup_fds(fds, e.old_fd, e.new_fd), p);
        } else {
            lemma_fds_of_with_fds(reg, pid, fds, p);
        }
    }
}

/// A record changes only the entry of its own process: every other pid keeps
/// its record, or its absence, as it was.
pub proof fn lemma_only_own_process(
    dets: Seq<AnyDetector>,
    buf: Seq<u8>,
    reg: Map<Pid, ProcessView>,
    q: Pid,
)
    requires
        buf.len() >= HEADER_LEN,
        q != spec_header(buf).pid,
    ensures
        bus_step(dets, buf, reg).0.contains_key(q) == reg.contains_key(q),
        reg.contains_key(q) ==> bus_step(dets, buf, reg).0[q] == reg[q],
{
    lemma_chain_shape(dets, spec_header(buf), buf, reg);
}

} // verus!
