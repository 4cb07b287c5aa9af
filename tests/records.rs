use sentinel::abi::{
    DupEvent, EventHeader, ExecveEvent, HookType, MemfdEvent, MmapEvent, SocketAllocEvent,
    SocketConnectEvent, HEADER_LEN,
};
use sentinel::detectors::memfd_display_name;
use sentinel::net::{RemoteAddr, SocketDomain, SocketType};
use sentinel::probe::{
    get_pid_tid, make_header, memfd_create, memfd_exit, sys_enter_connect, sys_enter_dup2,
    sys_enter_dup3, sys_enter_execveat, sys_enter_mmap, sys_enter_socket, sys_exit_socket,
    MemfdState, SocketState, Stash, STASH_CAPACITY,
};
use sentinel::registry::DescriptorType;

fn hdr(kind: HookType) -> EventHeader {
    EventHeader { event_type: kind, pid: 1234, tid: -5 }
}

#[test]
fn header_layout_is_little_endian() {
    let h = EventHeader { event_type: HookType::Dup, pid: 0x01020304, tid: -1 };
    let b = h.to_bytes();
    assert_eq!(b, vec![6, 0, 0, 0, 4, 3, 2, 1, 0xff, 0xff, 0xff, 0xff]);
    assert_eq!(EventHeader::decode(&b), Some(h));
    assert_eq!(HEADER_LEN, 12);
}

#[test]
fn header_needs_twelve_bytes() {
    let b = hdr(HookType::Mmap).to_bytes();
    assert_eq!(EventHeader::decode(&b[..11]), None);
    assert_eq!(EventHeader::decode(&[]), None);
}

#[test]
fn kind_codes() {
    let kinds = [
        HookType::Unknown,
        HookType::Memfd,
        HookType::Execve,
        HookType::Mmap,
        HookType::SocketAlloc,
        HookType::SocketConnect,
        HookType::Dup,
    ];
    for (i, k) in kinds.iter().enumerate() {
        assert_eq!(k.code(), i as u32);
        assert_eq!(HookType::from_code(i as u32), *k);
    }
    assert_eq!(HookType::from_code(7), HookType::Unknown);
    assert_eq!(HookType::from_code(u32::MAX), HookType::Unknown);
    assert_eq!(HookType::default(), HookType::Unknown);
}

#[test]
fn kind_labels() {
    assert_eq!(HookType::Unknown.as_bytes(), b"UNKNOWN\0");
    assert_eq!(HookType::Memfd.as_bytes(), b"MEMFD: \0");
    assert_eq!(HookType::Execve.as_bytes(), b"EXECVE\0");
    assert_eq!(HookType::Mmap.as_bytes(), b"MMAP\0");
    assert_eq!(HookType::SocketAlloc.as_bytes(), b"SOCK_ALLOC\0");
    assert_eq!(HookType::SocketConnect.as_bytes(), b"SOCK_CONNECT\0");
    assert_eq!(HookType::Dup.as_bytes(), b"DUP\0");
}

#[test]
fn memfd_record_round_trip() {
    let mut filename = [0u8; 64];
    for (i, b) in filename.iter_mut().enumerate() {
        *b = (i as u8).wrapping_mul(7).wrapping_add(1);
    }
    let e = MemfdEvent { header: hdr(HookType::Memfd), filename, fd: -3 };
    let b = e.to_bytes();
    assert_eq!(b.len(), 80);
    assert_eq!(MemfdEvent::decode(&b), Some(e));
    assert_eq!(MemfdEvent::decode(&b[..79]), None);
    let d = MemfdEvent::default();
    assert_eq!(d.fd, 0);
    assert_eq!(d.filename, [0u8; 64]);
    assert_eq!(d.header, EventHeader::default());
}

#[test]
fn execve_record_round_trip() {
    let e = ExecveEvent { header: hdr(HookType::Execve), fd: 7, flags: 0x1000 };
    let b = e.to_bytes();
    assert_eq!(b.len(), 20);
    assert_eq!(ExecveEvent::decode(&b), Some(e));
    assert_eq!(ExecveEvent::decode(&b[..19]), None);
}

#[test]
fn mmap_record_round_trip() {
    let e = MmapEvent { header: hdr(HookType::Mmap), fd: i32::MIN, prot: 0x6, flags: u32::MAX };
    let b = e.to_bytes();
    assert_eq!(b.len(), 24);
    assert_eq!(MmapEvent::decode(&b), Some(e));
    assert_eq!(MmapEvent::decode(&b[..23]), None);
}

#[test]
fn socket_alloc_record_round_trip() {
    let e = SocketAllocEvent {
        header: hdr(HookType::SocketAlloc),
        fd: 3,
        domain: 2,
        type_: 0x80801,
        protocol: 6,
    };
    let b = e.to_bytes();
    assert_eq!(b.len(), 28);
    assert_eq!(SocketAllocEvent::decode(&b), Some(e));
    assert_eq!(SocketAllocEvent::decode(&b[..27]), None);
}

#[test]
fn socket_connect_record_round_trip() {
    let e = SocketConnectEvent {
        header: hdr(HookType::SocketConnect),
        fd: 3,
        ip: 0x0100007F,
        port: 0x5000,
        is_ipv6: 0,
    };
    let b = e.to_bytes();
    assert_eq!(b.len(), 24);
    assert_eq!(&b[16..20], &[0x7F, 0, 0, 1]);
    assert_eq!(&b[20..22], &[0, 0x50]);
    assert_eq!(SocketConnectEvent::decode(&b), Some(e));
    assert_eq!(SocketConnectEvent::decode(&b[..23]), None);
}

#[test]
fn dup_record_round_trip() {
    let e = DupEvent { header: hdr(HookType::Dup), old_fd: 3, new_fd: 0 };
    let b = e.to_bytes();
    assert_eq!(b.len(), 20);
    assert_eq!(DupEvent::decode(&b), Some(e));
    assert_eq!(DupEvent::decode(&b[..19]), None);
}

#[test]
fn decoding_reads_unaligned_buffers() {
    let e = DupEvent { header: hdr(HookType::Dup), old_fd: 9, new_fd: 2 };
    let mut b = vec![0xAAu8];
    b.extend(e.to_bytes());
    assert_eq!(DupEvent::decode(&b[1..]), Some(e));
}

#[test]
fn connect_fields_are_network_order() {
    let mut b = SocketConnectEvent {
        header: hdr(HookType::SocketConnect),
        fd: 3,
        ip: 0,
        port: 0,
        is_ipv6: 0,
    }
    .to_bytes();
    // Address bytes 0x50, 0, 0, 0 and port bytes 0x1F, 0x90 as a caller wrote them.
    b[16] = 0x50;
    b[17] = 0;
    b[18] = 0;
    b[19] = 0;
    b[20] = 0x1F;
    b[21] = 0x90;
    let e = SocketConnectEvent::decode(&b).unwrap();
    let a = e.to_socket_addr().unwrap();
    assert_eq!(a, RemoteAddr { ip: 0x50000000, port: 8080 });
    assert_eq!(a.to_text(), "80.0.0.0:8080");
}

#[test]
fn loopback_endpoint_text() {
    let e = SocketConnectEvent {
        header: hdr(HookType::SocketConnect),
        fd: 3,
        ip: 0x0100007F,
        port: 0x5000,
        is_ipv6: 0,
    };
    assert_eq!(e.to_socket_addr(), Some(RemoteAddr { ip: 0x7F000001, port: 80 }));
    assert_eq!(e.to_socket_addr().unwrap().to_text(), "127.0.0.1:80");
    let v6 = SocketConnectEvent { is_ipv6: 1, ..e };
    assert_eq!(v6.to_socket_addr(), None);
}

#[test]
fn endpoint_text_extremes() {
    assert_eq!(RemoteAddr { ip: 0, port: 0 }.to_text(), "0.0.0.0:0");
    assert_eq!(RemoteAddr { ip: u32::MAX, port: u16::MAX }.to_text(), "255.255.255.255:65535");
    assert_eq!(RemoteAddr { ip: 0x0A00FF09, port: 10 }.to_text(), "10.0.255.9:10");
}

#[test]
fn socket_domains() {
    assert_eq!(SocketDomain::from(2), SocketDomain::Ipv4);
    assert_eq!(SocketDomain::from(10), SocketDomain::Ipv6);
    assert_eq!(SocketDomain::from(1), SocketDomain::Unix);
    assert_eq!(SocketDomain::from(16), SocketDomain::Netlink);
    assert_eq!(SocketDomain::from(17), SocketDomain::Packet);
    assert_eq!(SocketDomain::from(0), SocketDomain::Unknown(0));
    assert_eq!(SocketDomain::from(44), SocketDomain::Unknown(44));
}

#[test]
fn socket_types_ignore_flags() {
    assert_eq!(SocketType::from(1), SocketType::Stream);
    assert_eq!(SocketType::from(2), SocketType::Dgram);
    assert_eq!(SocketType::from(3), SocketType::Raw);
    assert_eq!(SocketType::from(5), SocketType::SeqPacket);
    // SOCK_NONBLOCK | SOCK_CLOEXEC | SOCK_STREAM
    assert_eq!(SocketType::from(0o4000 | 0o2000000 | 1), SocketType::Stream);
    assert_eq!(SocketType::from(4), SocketType::Unknown(4));
    assert_eq!(SocketType::from(0x14), SocketType::Unknown(0x14));
}

#[test]
fn descriptor_descriptions() {
    let s = DescriptorType::Socket {
        domain: SocketDomain::Unknown(99),
        type_: 1,
        protocol: 0,
        remote_addr: None,
    };
    assert_eq!(s.describe(), "Socket(domain: Unknown(99), type: 1, protocol: 0, remote: N/A)");
    let c = DescriptorType::Socket {
        domain: SocketDomain::Ipv4,
        type_: 4294967295,
        protocol: 6,
        remote_addr: Some(RemoteAddr { ip: 0x7F000001, port: 4444 }),
    };
    assert_eq!(
        c.describe(),
        "Socket(domain: Ipv4, type: 4294967295, protocol: 6, remote: 127.0.0.1:4444)"
    );
    assert_eq!(DescriptorType::Memfd { name: "payload".to_string() }.describe(), "Memfd(payload)");
    assert_eq!(DescriptorType::Unknown.describe(), "Unknown");
}

#[test]
fn socket_record_becomes_descriptor() {
    let e = SocketAllocEvent { header: hdr(HookType::SocketAlloc), fd: 3, domain: 2, type_: 1, protocol: 6 };
    let d = DescriptorType::from(e);
    assert_eq!(d.describe(), "Socket(domain: Ipv4, type: 1, protocol: 6, remote: N/A)");
}

#[test]
fn memfd_names_stop_at_nul() {
    let mut b = [0u8; 64];
    b[..7].copy_from_slice(b"payload");
    b[8] = b'x'; // after the NUL: not part of the name
    assert_eq!(memfd_display_name(&b), "payload");
    assert_eq!(memfd_display_name(&[0u8; 64]), "");
    let full = [b'a'; 64];
    assert_eq!(memfd_display_name(&full), "a".repeat(64));
}

#[test]
fn memfd_names_replace_invalid_utf8() {
    let mut b = [0u8; 64];
    b[0] = b'm';
    b[1] = 0xFF;
    b[2] = b'z';
    assert_eq!(memfd_display_name(&b), "m\u{FFFD}z");
    let mut u = [0u8; 64];
    u[..3].copy_from_slice("é!".as_bytes());
    assert_eq!(memfd_display_name(&u), "é!");
}

#[test]
fn pid_tid_split() {
    let word = (200u64 << 32) | 201;
    assert_eq!(get_pid_tid(word), (200, 201));
    let h = make_header(HookType::Mmap, word);
    assert_eq!(h, EventHeader { event_type: HookType::Mmap, pid: 200, tid: 201 });
}

fn name64(s: &str) -> [u8; 64] {
    let mut b = [0u8; 64];
    b[..s.len()].copy_from_slice(s.as_bytes());
    b
}

#[test]
fn memfd_probe_pairs_entry_and_exit() {
    let word = (100u64 << 32) | 101;
    let mut stash: Stash<MemfdState> = Stash::new();
    memfd_create(&mut stash, word, Some(name64("payload")));
    assert!(stash.contains(101));
    let e = memfd_exit(&mut stash, word, 7).unwrap();
    assert_eq!(e.header, EventHeader { event_type: HookType::Memfd, pid: 100, tid: 101 });
    assert_eq!(e.fd, 7);
    assert_eq!(e.filename, name64("payload"));
    assert_eq!(stash.len(), 0);
}

#[test]
fn memfd_probe_failed_call_emits_nothing() {
    let word = (100u64 << 32) | 101;
    let mut stash: Stash<MemfdState> = Stash::new();
    memfd_create(&mut stash, word, Some(name64("payload")));
    assert_eq!(memfd_exit(&mut stash, word, -1), None);
    // The entry is gone whatever the outcome.
    assert!(!stash.contains(101));
    assert_eq!(memfd_exit(&mut stash, word, 7), None);
}

#[test]
fn memfd_probe_unread_name_stashes_nothing() {
    let word = 101u64;
    let mut stash: Stash<MemfdState> = Stash::new();
    memfd_create(&mut stash, word, None);
    assert_eq!(stash.len(), 0);
    assert_eq!(memfd_exit(&mut stash, word, 3), None);
}

#[test]
fn memfd_probe_keys_by_thread() {
    let t1 = (100u64 << 32) | 1;
    let t2 = (100u64 << 32) | 2;
    let mut stash: Stash<MemfdState> = Stash::new();
    memfd_create(&mut stash, t1, Some(name64("one")));
    memfd_create(&mut stash, t2, Some(name64("two")));
    assert_eq!(memfd_exit(&mut stash, t2, 4).unwrap().filename, name64("two"));
    assert_eq!(memfd_exit(&mut stash, t1, 3).unwrap().filename, name64("one"));
    assert_eq!(MemfdState::default().filename, [0u8; 64]);
}

#[test]
fn socket_probe_pairs_entry_and_exit() {
    let word = (200u64 << 32) | 202;
    let mut stash: Stash<SocketState> = Stash::new();
    sys_enter_socket(&mut stash, word, Some(2), Some(1), Some(6));
    let e = sys_exit_socket(&mut stash, word, 3).unwrap();
    assert_eq!(e.header, EventHeader { event_type: HookType::SocketAlloc, pid: 200, tid: 202 });
    assert_eq!((e.fd, e.domain, e.type_, e.protocol), (3, 2, 1, 6));
    assert_eq!(stash.len(), 0);
    sys_enter_socket(&mut stash, word, Some(2), Some(1), Some(6));
    assert_eq!(sys_exit_socket(&mut stash, word, -13), None);
    assert_eq!(stash.len(), 0);
    assert_eq!(sys_exit_socket(&mut stash, word, 3), None);
    assert_eq!(SocketState::default(), SocketState { domain: 0, type_: 0, protocol: 0 });
}

#[test]
fn socket_probe_unread_argument_stashes_nothing() {
    let word = (200u64 << 32) | 202;
    let mut stash: Stash<SocketState> = Stash::new();
    sys_enter_socket(&mut stash, word, None, Some(1), Some(6));
    sys_enter_socket(&mut stash, word, Some(2), None, Some(6));
    sys_enter_socket(&mut stash, word, Some(2), Some(1), None);
    assert_eq!(stash.len(), 0);
    // The call succeeds, but nothing was captured at entry: no record.
    assert_eq!(sys_exit_socket(&mut stash, word, 3), None);
}

#[test]
fn stash_refuses_new_threads_when_full() {
    let mut stash: Stash<SocketState> = Stash::new();
    let st = SocketState { domain: 2, type_: 1, protocol: 6 };
    for tid in 0..STASH_CAPACITY as u32 {
        assert!(stash.insert(tid, st));
    }
    assert_eq!(stash.len(), STASH_CAPACITY);
    assert!(!stash.insert(5000, st));
    assert!(!stash.contains(5000));
    // A thread already present may still replace its entry.
    assert!(stash.insert(7, SocketState { domain: 10, type_: 2, protocol: 17 }));
    assert_eq!(stash.take(7), Some(SocketState { domain: 10, type_: 2, protocol: 17 }));
    assert!(stash.insert(5000, st));
}

#[test]
fn execveat_probe_needs_both_arguments() {
    let word = (9u64 << 32) | 10;
    let e = sys_enter_execveat(word, Some(7), Some(0x1000)).unwrap();
    assert_eq!((e.fd, e.flags), (7, 0x1000));
    assert_eq!(e.header.event_type, HookType::Execve);
    assert_eq!(sys_enter_execveat(word, None, Some(0)), None);
    assert_eq!(sys_enter_execveat(word, Some(7), None), None);
}

#[test]
fn mmap_probe_needs_both_arguments() {
    let word = (9u64 << 32) | 10;
    let e = sys_enter_mmap(word, Some(6), Some(7)).unwrap();
    assert_eq!((e.fd, e.prot, e.flags), (7, 6, 0));
    assert_eq!(e.header, EventHeader { event_type: HookType::Mmap, pid: 9, tid: 10 });
    assert_eq!(sys_enter_mmap(word, None, Some(7)), None);
    assert_eq!(sys_enter_mmap(word, Some(6), None), None);
    assert_eq!(sys_enter_mmap(word, None, None), None);
}

#[test]
fn dup_probes() {
    let word = (9u64 << 32) | 10;
    let a = sys_enter_dup2(word, Some(3), Some(0)).unwrap();
    let b = sys_enter_dup3(word, Some(3), Some(0)).unwrap();
    assert_eq!(a, b);
    assert_eq!((a.old_fd, a.new_fd), (3, 0));
    assert_eq!(a.header.event_type, HookType::Dup);
    assert_eq!(sys_enter_dup2(word, None, Some(1)), None);
    assert_eq!(sys_enter_dup3(word, None, Some(1)), None);
}

#[test]
fn dup_probe_unread_target_is_not_stdin() {
    // A socket duplicated onto an fd that could not be read must not turn
    // into a duplication onto descriptor 0.
    let word = (9u64 << 32) | 10;
    assert_eq!(sys_enter_dup2(word, Some(3), None), None);
    assert_eq!(sys_enter_dup3(word, Some(3), None), None);
}

#[test]
fn connect_probe_reads_ipv4_only() {
    let word = (9u64 << 32) | 10;
    // sockaddr_in: family 2, port 80 (bytes 0x00 0x50), 127.0.0.1, zero padding
    let sa = [2u8, 0, 0x00, 0x50, 127, 0, 0, 1, 0, 0, 0, 0, 0, 0, 0, 0];
    let e = sys_enter_connect(word, 3, Some(&sa[..])).unwrap();
    assert_eq!(e.fd, 3);
    assert_eq!(e.ip, 0x0100007F);
    assert_eq!(e.port, 0x5000);
    assert_eq!(e.is_ipv6, 0);
    assert_eq!(e.to_socket_addr().unwrap().to_text(), "127.0.0.1:80");
    let mut v6 = sa;
    v6[0] = 10;
    assert_eq!(sys_enter_connect(word, 3, Some(&v6[..])), None);
    assert_eq!(sys_enter_connect(word, 3, Some(&sa[..8])), None);
    assert_eq!(sys_enter_connect(word, 3, None), None);
}
