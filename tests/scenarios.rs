use sentinel::abi::{
    DupEvent, EventHeader, ExecveEvent, HookType, MemfdEvent, MmapEvent, SocketAllocEvent,
    SocketConnectEvent,
};
use sentinel::bus::{AnyDetector, EventBus};
use sentinel::detectors::{
    AlertKind, Detector, FilelessDetector, ReflectiveLoaderDetector, ReverseShellDetector,
};
use sentinel::net::{RemoteAddr, SocketDomain};
use sentinel::registry::{DescriptorType, ProcessRegistry};

fn header(kind: HookType, pid: i32) -> EventHeader {
    EventHeader { event_type: kind, pid, tid: pid }
}

fn name_buf(name: &str) -> [u8; 64] {
    let mut b = [0u8; 64];
    b[..name.len()].copy_from_slice(name.as_bytes());
    b
}

fn standard_bus() -> EventBus {
    let mut bus = EventBus::new(ProcessRegistry::new());
    bus.register(AnyDetector::Fileless(FilelessDetector));
    bus.register(AnyDetector::Reflective(ReflectiveLoaderDetector));
    bus.register(AnyDetector::ReverseShell(ReverseShellDetector));
    bus
}

fn memfd(pid: i32, fd: i32, name: &str) -> Vec<u8> {
    MemfdEvent { header: header(HookType::Memfd, pid), filename: name_buf(name), fd }.to_bytes()
}

fn execve(pid: i32, fd: i32, flags: u32) -> Vec<u8> {
    ExecveEvent { header: header(HookType::Execve, pid), fd, flags }.to_bytes()
}

fn mmap(pid: i32, fd: i32, prot: u32) -> Vec<u8> {
    MmapEvent { header: header(HookType::Mmap, pid), fd, prot, flags: 0 }.to_bytes()
}

fn socket(pid: i32, fd: i32, domain: u32, type_: u32, protocol: u32) -> Vec<u8> {
    SocketAllocEvent { header: header(HookType::SocketAlloc, pid), fd, domain, type_, protocol }
        .to_bytes()
}

fn connect(pid: i32, fd: i32, ip: u32, port: u16, is_ipv6: u8) -> Vec<u8> {
    SocketConnectEvent { header: header(HookType::SocketConnect, pid), fd, ip, port, is_ipv6 }
        .to_bytes()
}

fn dup(pid: i32, old_fd: i32, new_fd: i32) -> Vec<u8> {
    DupEvent { header: header(HookType::Dup, pid), old_fd, new_fd }.to_bytes()
}

#[test]
fn fileless_execution_scenario() {
    let mut bus = standard_bus();
    assert!(bus.process_packet(&memfd(100, 7, "payload")).is_empty());
    let alerts = bus.process_packet(&execve(100, 7, 0x1000));
    assert_eq!(alerts.len(), 1);
    let a = &alerts[0];
    assert_eq!(a.kind, AlertKind::FilelessExecution);
    assert_eq!(a.kind.label(), "FILELESS_EXECUTION");
    assert_eq!(a.pid, 100);
    assert_eq!(a.fds, vec![7]);
    assert_eq!(a.names, vec!["payload".to_string()]);
    assert_eq!(a.remote, None);
}

#[test]
fn execve_of_untracked_fd_is_quiet() {
    let mut bus = standard_bus();
    assert!(bus.process_packet(&execve(100, 7, 0)).is_empty());
    // An fd that holds a socket is not a memory file either.
    bus.process_packet(&socket(100, 7, 2, 1, 6));
    assert!(bus.process_packet(&execve(100, 7, 0)).is_empty());
}

#[test]
fn reflective_load_scenario() {
    let mut bus = standard_bus();
    bus.process_packet(&memfd(100, 7, "libmal"));
    let alerts = bus.process_packet(&mmap(100, 7, 0x6));
    assert_eq!(alerts.len(), 1);
    assert_eq!(alerts[0].kind, AlertKind::ReflectiveCodeLoading);
    assert_eq!(alerts[0].kind.label(), "REFLECTIVE_CODE_LOADING");
    assert_eq!(alerts[0].pid, 100);
    assert_eq!(alerts[0].fds, vec![7]);
    assert_eq!(alerts[0].names, vec!["libmal".to_string()]);
}

#[test]
fn mmap_without_write_scenario() {
    let mut bus = standard_bus();
    bus.process_packet(&memfd(100, 7, "libmal"));
    assert!(bus.process_packet(&mmap(100, 7, 0x5)).is_empty());
    assert!(bus.process_packet(&mmap(100, 7, 0x4)).is_empty());
    assert!(bus.process_packet(&mmap(100, 7, 0x2)).is_empty());
    // Extra bits do not matter once write and execute are both there.
    assert_eq!(bus.process_packet(&mmap(100, 7, 0x7)).len(), 1);
}

#[test]
fn mmap_of_non_memfd_is_quiet() {
    let mut bus = standard_bus();
    bus.process_packet(&socket(100, 7, 2, 1, 6));
    assert!(bus.process_packet(&mmap(100, 7, 0x6)).is_empty());
    assert!(bus.process_packet(&mmap(100, 9, 0x6)).is_empty());
}

#[test]
fn mmap_without_write_exec_leaves_registry_alone() {
    let mut bus = standard_bus();
    bus.process_packet(&mmap(555, 3, 0x1));
    assert!(!bus.registry.contains(555));
    bus.process_packet(&mmap(555, 3, 0x6));
    assert!(bus.registry.contains(555));
}

#[test]
fn reverse_shell_scenario() {
    let mut bus = standard_bus();
    assert!(bus.process_packet(&socket(200, 3, 2, 1, 6)).is_empty());
    assert!(bus.process_packet(&connect(200, 3, 0x0100007F, 0x5000, 0)).is_empty());
    let alerts = bus.process_packet(&dup(200, 3, 0));
    assert_eq!(alerts.len(), 1);
    let a = &alerts[0];
    assert_eq!(a.kind, AlertKind::ReverseShell);
    assert_eq!(a.kind.label(), "REVERSE_SHELL");
    assert_eq!(a.pid, 200);
    assert_eq!(a.fds, vec![3, 0]);
    assert!(a.names.is_empty());
    assert_eq!(a.remote, Some(RemoteAddr { ip: 0x7F000001, port: 80 }));
    assert_eq!(a.remote_text(), "127.0.0.1:80");
}

#[test]
fn reverse_shell_to_each_stdio_fd() {
    for target in 0..3 {
        let mut bus = standard_bus();
        bus.process_packet(&socket(200, 3, 2, 1, 6));
        let alerts = bus.process_packet(&dup(200, 3, target));
        assert_eq!(alerts.len(), 1);
        assert_eq!(alerts[0].remote_text(), "Unknown");
    }
}

#[test]
fn dup_to_non_stdio_scenario() {
    let mut bus = standard_bus();
    bus.process_packet(&socket(200, 3, 2, 1, 6));
    bus.process_packet(&connect(200, 3, 0x0100007F, 0x5000, 0));
    assert!(bus.process_packet(&dup(200, 3, 10)).is_empty());
    let expected = DescriptorType::Socket {
        domain: SocketDomain::Ipv4,
        type_: 1,
        protocol: 6,
        remote_addr: Some(RemoteAddr { ip: 0x7F000001, port: 80 }),
    };
    let at3 = bus.registry.descriptor(200, 3).unwrap();
    let at10 = bus.registry.descriptor(200, 10).unwrap();
    assert_eq!(at3.describe(), expected.describe());
    assert_eq!(at10.describe(), expected.describe());
}

#[test]
fn dup_to_negative_fd_is_not_stdio() {
    let mut bus = standard_bus();
    bus.process_packet(&socket(200, 3, 2, 1, 6));
    assert!(bus.process_packet(&dup(200, 3, -1)).is_empty());
}

#[test]
fn lost_socket_scenario() {
    let mut bus = standard_bus();
    // The socket record for fd 4 never arrived.
    let alerts = bus.process_packet(&dup(300, 4, 1));
    assert!(alerts.is_empty());
    assert!(bus.registry.descriptor(300, 4).is_none());
    assert!(bus.registry.descriptor(300, 1).is_none());
}

#[test]
fn dup_of_memfd_is_not_followed() {
    let mut bus = standard_bus();
    bus.process_packet(&memfd(400, 5, "x"));
    assert!(bus.process_packet(&dup(400, 5, 1)).is_empty());
    assert!(bus.registry.descriptor(400, 1).is_none());
}

#[test]
fn short_buffer_is_dropped() {
    let mut bus = standard_bus();
    let full = memfd(100, 7, "payload");
    for len in 0..12 {
        assert!(bus.process_packet(&full[..len]).is_empty());
    }
    assert!(!bus.registry.contains(100));
}

#[test]
fn truncated_body_is_ignored() {
    let mut bus = standard_bus();
    let full = memfd(100, 7, "payload");
    assert!(bus.process_packet(&full[..79]).is_empty());
    assert!(!bus.registry.contains(100));
}

#[test]
fn unknown_kind_is_ignored() {
    let mut bus = standard_bus();
    let mut buf = memfd(100, 7, "payload");
    buf[0] = 42;
    assert!(bus.process_packet(&buf).is_empty());
    assert!(!bus.registry.contains(100));
}

#[test]
fn same_event_twice_is_same_as_once() {
    let events = vec![
        memfd(100, 7, "payload"),
        socket(100, 3, 2, 1, 6),
        connect(100, 3, 0x0100007F, 0x5000, 0),
        dup(100, 3, 10),
    ];
    let mut once = standard_bus();
    let mut twice = standard_bus();
    for e in &events {
        once.process_packet(e);
        twice.process_packet(e);
        twice.process_packet(e);
    }
    for fd in [3, 7, 10] {
        let a = once.registry.descriptor(100, fd).unwrap().describe();
        let b = twice.registry.descriptor(100, fd).unwrap().describe();
        assert_eq!(a, b);
    }
    // Raising an alert twice gives the same alert.
    let first = twice.process_packet(&dup(100, 3, 1));
    let second = twice.process_packet(&dup(100, 3, 1));
    assert_eq!(first.len(), 1);
    assert_eq!(second.len(), 1);
    assert_eq!(first[0].fds, second[0].fds);
    assert_eq!(first[0].remote, second[0].remote);
}

#[test]
fn latest_allocation_wins() {
    let mut bus = standard_bus();
    bus.process_packet(&memfd(100, 7, "first"));
    assert_eq!(bus.registry.descriptor(100, 7).unwrap().describe(), "Memfd(first)");
    bus.process_packet(&socket(100, 7, 10, 2, 17));
    assert_eq!(
        bus.registry.descriptor(100, 7).unwrap().describe(),
        "Socket(domain: Ipv6, type: 2, protocol: 17, remote: N/A)"
    );
    bus.process_packet(&memfd(100, 7, "second"));
    assert_eq!(bus.registry.descriptor(100, 7).unwrap().describe(), "Memfd(second)");
    // Events of other processes and other fds leave it alone.
    bus.process_packet(&memfd(101, 7, "other"));
    bus.process_packet(&memfd(100, 8, "other"));
    bus.process_packet(&execve(100, 7, 0));
    assert_eq!(bus.registry.descriptor(100, 7).unwrap().describe(), "Memfd(second)");
}

#[test]
fn ipv6_connect_leaves_remote_unset() {
    let mut bus = standard_bus();
    bus.process_packet(&socket(200, 3, 10, 1, 6));
    bus.process_packet(&connect(200, 3, 0x0100007F, 0x5000, 1));
    let alerts = bus.process_packet(&dup(200, 3, 2));
    assert_eq!(alerts.len(), 1);
    assert_eq!(alerts[0].remote, None);
    assert_eq!(alerts[0].remote_text(), "Unknown");
}

#[test]
fn connect_on_unknown_fd_adds_nothing() {
    let mut bus = standard_bus();
    bus.process_packet(&connect(200, 9, 0x0100007F, 0x5000, 0));
    assert!(bus.registry.contains(200));
    assert!(bus.registry.descriptor(200, 9).is_none());
}

#[test]
fn detectors_run_in_registration_order() {
    let mut bus = EventBus::new(ProcessRegistry::new());
    bus.register(AnyDetector::ReverseShell(ReverseShellDetector));
    assert_eq!(bus.detectors.len(), 1);
    // Without the fileless detector, memory files are not tracked.
    bus.process_packet(&memfd(100, 7, "payload"));
    assert!(bus.process_packet(&execve(100, 7, 0)).is_empty());
}

#[test]
fn detector_names() {
    assert_eq!(FilelessDetector.name(), "Fileless Execution Detector");
    assert_eq!(ReflectiveLoaderDetector.name(), "Reflective Loading Detector");
    assert_eq!(ReverseShellDetector.name(), "ReverseShellDetector");
    assert_eq!(AnyDetector::Reflective(ReflectiveLoaderDetector).name(), "Reflective Loading Detector");
}

#[test]
fn registry_lifecycle() {
    let mut reg = ProcessRegistry::new();
    assert!(!reg.contains(42));
    assert!(reg.get_or_create(42));
    assert!(!reg.get_or_create(42));
    reg.insert_descriptor(42, 3, DescriptorType::Unknown);
    assert_eq!(reg.descriptor(42, 3).unwrap().describe(), "Unknown");
    reg.set_binary(42, 1_700_000_000, Some("/usr/bin/nc".to_string()), Some("nc".to_string()));
    assert_eq!(reg.descriptor(42, 3).unwrap().describe(), "Unknown");
    reg.remove(42);
    assert!(!reg.contains(42));
    assert!(reg.descriptor(42, 3).is_none());
    // Metadata for a pid with no record is dropped.
    reg.set_binary(43, 1, None, None);
    assert!(!reg.contains(43));
}

#[test]
fn registry_memfd_lookup() {
    let mut reg = ProcessRegistry::new();
    assert_eq!(reg.memfd_name(7, 1), None);
    assert!(reg.contains(7));
    reg.insert_descriptor(7, 1, DescriptorType::Memfd { name: "m".to_string() });
    assert_eq!(reg.memfd_name(7, 1), Some("m".to_string()));
    reg.insert_descriptor(7, 2, DescriptorType::File { path: "/tmp/f".to_string() });
    assert_eq!(reg.memfd_name(7, 2), None);
    assert_eq!(reg.descriptor(7, 2).unwrap().describe(), "File(/tmp/f)");
}
