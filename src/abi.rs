//! Fixed-layout event records shared by the probes and the analysis side.
//!
//! Every record is tightly packed, with a 12-byte header (kind, pid, tid)
//! followed by a kind-specific body. Records carry integers in the host's
//! byte order, and this crate assumes a little-endian host (x86-64 and
//! aarch64, where the sensor runs): every multi-byte field is read and
//! written least significant byte first.
use vstd::prelude::*;
use vstd::string::{is_ascii, is_ascii_spec_bytes, StringSliceAdditionalSpecFns};

verus! {

pub type Pid = i32;

pub type Fd = i32;

pub type Tid = i32;

pub type KFlag = u32;

/// Length in bytes of an encoded `EventHeader`.
pub const HEADER_LEN: usize = 12;

/// Length in bytes of an encoded `MemfdEvent`.
pub const MEMFD_LEN: usize = 80;

/// Length in bytes of an encoded `ExecveEvent`.
pub const EXECVE_LEN: usize = 20;

/// Length in bytes of an encoded `MmapEvent`.
pub const MMAP_LEN: usize = 24;

/// Length in bytes of an encoded `SocketAllocEvent`.
pub const SOCKET_ALLOC_LEN: usize = 28;

/// Length in bytes of an encoded `SocketConnectEvent` (one trailing pad byte).
pub const SOCKET_CONNECT_LEN: usize = 24;

/// Length in bytes of an encoded `DupEvent`.
pub const DUP_LEN: usize = 20;

/// Size of the filename buffer carried by a `MemfdEvent`.
pub const FILENAME_LEN: usize = 64;

// ---------------------------------------------------------------------------
// Little-endian integers over byte sequences
// ---------------------------------------------------------------------------

pub open spec fn u16_at(b: Seq<u8>, off: int) -> u16 {
    ((b[off] as u16) | ((b[off + 1] as u16) << 8u16)) as u16
}

pub open spec fn u32_at(b: Seq<u8>, off: int) -> u32 {
    ((b[off] as u32) | ((b[off + 1] as u32) << 8u32) | ((b[off + 2] as u32) << 16u32) | ((b[off
        + 3] as u32) << 24u32)) as u32
}

pub open spec fn i32_at(b: Seq<u8>, off: int) -> i32 {
    u32_at(b, off) as i32
}

pub open spec fn u16_bytes(v: u16) -> Seq<u8> {
    seq![(v & 0xffu16) as u8, ((v >> 8u16) & 0xffu16) as u8]
}

pub open spec fn u32_bytes(v: u32) -> Seq<u8> {
    seq![
        (v & 0xffu32) as u8,
        ((v >> 8u32) & 0xffu32) as u8,
        ((v >> 16u32) & 0xffu32) as u8,
        ((v >> 24u32) & 0xffu32) as u8,
    ]
}

pub open spec fn i32_bytes(v: i32) -> Seq<u8> {
    u32_bytes(v as u32)
}

pub open spec fn ascii_bytes(s: Seq<char>) -> Seq<u8> {
    s.map_values(|c: char| c as u8)
}

proof fn lemma_u16_round_trip(v: u16)
    ensures
        u16_at(u16_bytes(v), 0) == v,
{
    let b0 = (v & 0xffu16) as u8;
    let b1 = ((v >> 8u16) & 0xffu16) as u8;
    assert(((b0 as u16) | ((b1 as u16) << 8u16)) == v) by (bit_vector)
        requires
            b0 == (v & 0xffu16) as u8,
            b1 == ((v >> 8u16) & 0xffu16) as u8,
    ;
}

proof fn lemma_u32_round_trip(v: u32)
    ensures
        u32_at(u32_bytes(v), 0) == v,
{
    let b0 = (v & 0xffu32) as u8;
    let b1 = ((v >> 8u32) & 0xffu32) as u8;
    let b2 = ((v >> 16u32) & 0xffu32) as u8;
    let b3 = ((v >> 24u32) & 0xffu32) as u8;
    assert(((b0 as u32) | ((b1 as u32) << 8u32) | ((b2 as u32) << 16u32) | ((b3 as u32)
        << 24u32)) == v) by (bit_vector)
        requires
            b0 == (v & 0xffu32) as u8,
            b1 == ((v >> 8u32) & 0xffu32) as u8,
            b2 == ((v >> 16u32) & 0xffu32) as u8,
            b3 == ((v >> 24u32) & 0xffu32) as u8,
    ;
}

proof fn lemma_i32_round_trip(v: i32)
    ensures
        i32_at(i32_bytes(v), 0) == v,
{
    lemma_u32_round_trip(v as u32);
    assert(((v as u32) as i32) == v) by (bit_vector);
}

/// Reading at an offset only looks at the four bytes there.
proof fn lemma_u32_at_shift(a: Seq<u8>, b: Seq<u8>, off: int)
    requires
        0 <= off,
        off + 4 <= b.len(),
        forall|j: int| 0 <= j < 4 ==> #[trigger] b[off + j] == a[j],
    ensures
        u32_at(b, off) == u32_at(a, 0),
{
    assert(b[off + 0] == a[0]);
    assert(b[off + 1] == a[1]);
    assert(b[off + 2] == a[2]);
    assert(b[off + 3] == a[3]);
}

fn read_u16(buf: &[u8], off: usize) -> (r: u16)
    requires
        off + 2 <= buf@.len(),
    ensures
        r == u16_at(buf@, off as int),
{
    (buf[off] as u16) | ((buf[off + 1] as u16) << 8u16)
}

fn read_u32(buf: &[u8], off: usize) -> (r: u32)
    requires
        off + 4 <= buf@.len(),
    ensures
        r == u32_at(buf@, off as int),
{
    (buf[off] as u32) | ((buf[off + 1] as u32) << 8u32) | ((buf[off + 2] as u32) << 16u32) | ((
    buf[off + 3] as u32) << 24u32)
}

fn read_i32(buf: &[u8], off: usize) -> (r: i32)
    requires
        off + 4 <= buf@.len(),
    ensures
        r == i32_at(buf@, off as int),
{
    read_u32(buf, off) as i32
}

fn put_u16(out: &mut Vec<u8>, v: u16)
    ensures
        final(out)@ == old(out)@ + u16_bytes(v),
{
    out.push((v & 0xffu16) as u8);
    out.push(((v >> 8u16) & 0xffu16) as u8);
    assert(final(out)@ =~= old(out)@ + u16_bytes(v));
}

fn put_u32(out: &mut Vec<u8>, v: u32)
    ensures
        final(out)@ == old(out)@ + u32_bytes(v),
{
    out.push((v & 0xffu32) as u8);
    out.push(((v >> 8u32) & 0xffu32) as u8);
    out.push(((v >> 16u32) & 0xffu32) as u8);
    out.push(((v >> 24u32) & 0xffu32) as u8);
    assert(final(out)@ =~= old(out)@ + u32_bytes(v));
}

fn put_i32(out: &mut Vec<u8>, v: i32)
    ensures
        final(out)@ == old(out)@ + i32_bytes(v),
{
    put_u32(out, v as u32);
}

// ---------------------------------------------------------------------------
// Event kinds
// ---------------------------------------------------------------------------

/// The discriminator that opens every record.
#[derive(Clone, Copy, Debug, PartialEq, Eq, Structural)]
pub enum HookType {
    Unknown,
    Memfd,
    Execve,
    Mmap,
    SocketAlloc,
    SocketConnect,
    Dup,
}

impl HookType {
    /// The 32-bit code that stands for this kind in a record.
    pub open spec fn spec_code(self) -> u32 {
        match self {
            HookType::Unknown => 0,
            HookType::Memfd => 1,
            HookType::Execve => 2,
            HookType::Mmap => 3,
            HookType::SocketAlloc => 4,
            HookType::SocketConnect => 5,
            HookType::Dup => 6,
        }
    }

    /// The kind a 32-bit code stands for; codes that name no kind read as `Unknown`.
    pub open spec fn spec_from_code(code: u32) -> HookType {
        if code == 1 {
            HookType::Memfd
        } else if code == 2 {
            HookType::Execve
        } else if code == 3 {
            HookType::Mmap
        } else if code == 4 {
            HookType::SocketAlloc
        } else if code == 5 {
            HookType::SocketConnect
        } else if code == 6 {
            HookType::Dup
        } else {
            HookType::Unknown
        }
    }

    /// The NUL-terminated label that the probes print for this kind.
    pub open spec fn spec_label(self) -> Seq<char> {
        match self {
            HookType::Unknown => "UNKNOWN\0"@,
            HookType::Memfd => "MEMFD: \0"@,
            HookType::Execve => "EXECVE\0"@,
            HookType::Mmap => "MMAP\0"@,
            HookType::SocketAlloc => "SOCK_ALLOC\0"@,
            HookType::SocketConnect => "SOCK_CONNECT\0"@,
            HookType::Dup => "DUP\0"@,
        }
    }

    pub fn code(&self) -> (r: u32)
        ensures
            r == self.spec_code(),
    {
        match self {
            HookType::Unknown => 0,
            HookType::Memfd => 1,
            HookType::Execve => 2,
            HookType::Mmap => 3,
            HookType::SocketAlloc => 4,
            HookType::SocketConnect => 5,
            HookType::Dup => 6,
        }
    }

    pub fn from_code(code: u32) -> (r: HookType)
        ensures
            r == Self::spec_from_code(code),
    {
        if code == 1 {
            HookType::Memfd
        } else if code == 2 {
            HookType::Execve
        } else if code == 3 {
            HookType::Mmap
        } else if code == 4 {
            HookType::SocketAlloc
        } else if code == 5 {
            HookType::SocketConnect
        } else if code == 6 {
            HookType::Dup
        } else {
            HookType::Unknown
        }
    }

    /// The label as bytes, NUL included.
    pub fn as_bytes(&self) -> (r: &'static [u8])
        ensures
            r@ == ascii_bytes(self.spec_label()),
    {
        let s: &'static str = match self {
            HookType::Unknown => "UNKNOWN\0",
            HookType::Memfd => "MEMFD: \0",
            HookType::Execve => "EXECVE\0",
            HookType::Mmap => "MMAP\0",
            HookType::SocketAlloc => "SOCK_ALLOC\0",
            HookType::SocketConnect => "SOCK_CONNECT\0",
            HookType::Dup => "DUP\0",
        };
        proof {
            reveal_strlit("UNKNOWN\0");
            reveal_strlit("MEMFD: \0");
            reveal_strlit("EXECVE\0");
            reveal_strlit("MMAP\0");
            reveal_strlit("SOCK_ALLOC\0");
            reveal_strlit("SOCK_CONNECT\0");
            reveal_strlit("DUP\0");
            assert(is_ascii(s));
            is_ascii_spec_bytes(s);
            assert(s.spec_bytes() =~= ascii_bytes(self.spec_label()));
        }
        s.as_bytes()
    }
}

impl Default for HookType {
    fn default() -> (r: HookType)
        ensures
            r == HookType::Unknown,
    {
        HookType::Unknown
    }
}

// ---------------------------------------------------------------------------
// Header
// ---------------------------------------------------------------------------
/// The fixed prefix of every record.
#[derive(Clone, Copy, Debug, PartialEq, Eq, Structural)]
pub struct EventHeader {
    pub event_type: HookType,
    pub pid: Pid,
    pub tid: Tid,
}

/// The header that the first twelve bytes of `b` hold.
pub open spec fn spec_header(b: Seq<u8>) -> EventHeader {
    EventHeader {
        event_type: HookType::spec_from_code(u32_at(b, 0)),
        pid: i32_at(b, 4),
        tid: i32_at(b, 8),
    }
}

impl EventHeader {
    pub open spec fn spec_bytes(self) -> Seq<u8> {
        u32_bytes(self.event_type.spec_code()) + i32_bytes(self.pid) + i32_bytes(self.tid)
    }

    /// Reads the header at the start of `buf`; `None` when `buf` is too short for one.
    pub fn decode(buf: &[u8]) -> (r: Option<EventHeader>)
        ensures
            r == (if buf@.len() >= HEADER_LEN { Some(spec_header(buf@)) } else { None }),
    {
        if buf.len() < HEADER_LEN {
            return None;
        }
        let code = read_u32(buf, 0);
        let pid = read_i32(buf, 4);
        let tid = read_i32(buf, 8);
        Some(EventHeader { event_type: HookType::from_code(code), pid, tid })
    }

    fn put(&self, out: &mut Vec<u8>)
        ensures
            final(out)@ == old(out)@ + self.spec_bytes(),
    {
        put_u32(out, self.event_type.code());
        put_i32(out, self.pid);
        put_i32(out, self.tid);
        assert(final(out)@ =~= old(out)@ + self.spec_bytes());
    }

    pub fn to_bytes(&self) -> (r: Vec<u8>)
        ensures
            r@ == self.spec_bytes(),
    {
        let mut out: Vec<u8> = Vec::new();
        self.put(&mut out);
        assert(out@ =~= self.spec_bytes());
        out
    }
}

impl Default for EventHeader {
    fn default() -> (r: EventHeader)
        ensures
            r == (EventHeader { event_type: HookType::Unknown, pid: 0, tid: 0 }),
    {
        EventHeader { event_type: HookType::Unknown, pid: 0, tid: 0 }
    }
}

proof fn lemma_header_prefix(h: EventHeader, rest: Seq<u8>)
    ensures
        h.spec_bytes().len() == HEADER_LEN,
        spec_header(h.spec_bytes() + rest) == h,
{
    let b = h.spec_bytes() + rest;
    lemma_u32_round_trip(h.event_type.spec_code());
    lemma_i32_round_trip(h.pid);
    lemma_i32_round_trip(h.tid);
    lemma_u32_at_shift(u32_bytes(h.event_type.spec_code()), b, 0);
    lemma_u32_at_shift(i32_bytes(h.pid), b, 4);
    lemma_u32_at_shift(i32_bytes(h.tid), b, 8);
    assert(HookType::spec_from_code(h.event_type.spec_code()) == h.event_type);
}

/// A four-byte field read back out of the middle of a concatenation.
proof fn lemma_u32_in_middle(pre: Seq<u8>, mid: Seq<u8>, post: Seq<u8>)
    requires
        mid.len() == 4,
    ensures
        u32_at(pre + mid + post, pre.len() as int) == u32_at(mid, 0),
{
    let b = pre + mid + post;
    assert forall|j: int| 0 <= j < 4 implies #[trigger] b[pre.len() + j] == mid[j] by {}
    lemma_u32_at_shift(mid, b, pre.len() as int);
}

/// A two-byte field read back out of the middle of a concatenation.
proof fn lemma_u16_in_middle(pre: Seq<u8>, mid: Seq<u8>, post: Seq<u8>)
    requires
        mid.len() == 2,
    ensures
        u16_at(pre + mid + post, pre.len() as int) == u16_at(mid, 0),
{
    let b = pre + mid + post;
    assert(b[pre.len() as int] == mid[0]);
    assert(b[pre.len() as int + 1] == mid[1]);
}

// ---------------------------------------------------------------------------
// Records
// ---------------------------------------------------------------------------
/// A memory file was created: its name as read at entry and the descriptor returned.
#[derive(Clone, Copy, Debug, PartialEq, Eq)]
pub struct MemfdEvent {
    pub header: EventHeader,
    pub filename: [u8; 64],
    pub fd: Fd,
}

/// `e` is what the bytes `b` hold as a memory-file record.
pub open spec fn memfd_matches(b: Seq<u8>, e: MemfdEvent) -> bool {
    &&& e.header == spec_header(b)
    &&& e.filename@ == b.subrange(HEADER_LEN as int, HEADER_LEN + FILENAME_LEN)
    &&& e.fd == i32_at(b, 76)
}

impl MemfdEvent {
    pub open spec fn spec_bytes(self) -> Seq<u8> {
        self.header.spec_bytes() + self.filename@ + i32_bytes(self.fd)
    }

    /// Reads a memory-file record; `None` when `buf` is too short for one.
    pub fn decode(buf: &[u8]) -> (r: Option<MemfdEvent>)
        ensures
            r is Some <==> buf@.len() >= MEMFD_LEN,
            r matches Some(e) ==> memfd_matches(buf@, e),
    {
        if buf.len() < MEMFD_LEN {
            return None;
        }
        let header = EventHeader::decode(buf).unwrap();
        let mut filename = [0u8; 64];
        let mut i: usize = 0;
        while i < FILENAME_LEN
            invariant
                i <= FILENAME_LEN,
                buf@.len() >= MEMFD_LEN,
                filename@.len() == FILENAME_LEN,
                forall|j: int| 0 <= j < i ==> filename@[j] == buf@[HEADER_LEN + j],
            decreases FILENAME_LEN - i,
        {
            filename[i] = buf[HEADER_LEN + i];
            i += 1;
        }
        let fd = read_i32(buf, 76);
        let e = MemfdEvent { header, filename, fd };
        assert(e.filename@ =~= buf@.subrange(HEADER_LEN as int, HEADER_LEN + FILENAME_LEN));
        Some(e)
    }

    pub fn to_bytes(&self) -> (r: Vec<u8>)
        ensures
            r@ == self.spec_bytes(),
    {
        let mut out: Vec<u8> = Vec::new();
        self.header.put(&mut out);
        let mut i: usize = 0;
        while i < FILENAME_LEN
            invariant
                i <= FILENAME_LEN,
                self.filename@.len() == FILENAME_LEN,
                out@ == self.header.spec_bytes() + self.filename@.subrange(0, i as int),
            decreases FILENAME_LEN - i,
        {
            out.push(self.filename[i]);
            i += 1;
            assert(out@ =~= self.header.spec_bytes() + self.filename@.subrange(0, i as int));
        }
        assert(self.filename@.subrange(0, 64) =~= self.filename@);
        put_i32(&mut out, self.fd);
        out
    }
}

impl Default for MemfdEvent {
    fn default() -> (r: MemfdEvent)
        ensures
            r.header == (EventHeader { event_type: HookType::Unknown, pid: 0, tid: 0 }),
            r.fd == 0,
            forall|i: int| 0 <= i < FILENAME_LEN ==> r.filename@[i] == 0,
    {
        MemfdEvent { header: EventHeader::default(), filename: [0u8; 64], fd: 0 }
    }
}

/// An fd was executed through execute-at-fd.
#[derive(Clone, Copy, Debug, PartialEq, Eq, Structural)]
pub struct ExecveEvent {
    pub header: EventHeader,
    pub fd: Fd,
    pub flags: u32,
}

pub open spec fn spec_execve(b: Seq<u8>) -> ExecveEvent {
    ExecveEvent { header: spec_header(b), fd: i32_at(b, 12), flags: u32_at(b, 16) }
}

impl ExecveEvent {
    pub open spec fn spec_bytes(self) -> Seq<u8> {
        self.header.spec_bytes() + i32_bytes(self.fd) + u32_bytes(self.flags)
    }

    /// Reads an execute-at-fd record; `None` when `buf` is too short for one.
    pub fn decode(buf: &[u8]) -> (r: Option<ExecveEvent>)
        ensures
            r == (if buf@.len() >= EXECVE_LEN { Some(spec_execve(buf@)) } else { None }),
    {
        if buf.len() < EXECVE_LEN {
            return None;
        }
        let header = EventHeader::decode(buf).unwrap();
        Some(ExecveEvent { header, fd: read_i32(buf, 12), flags: read_u32(buf, 16) })
    }

    pub fn to_bytes(&self) -> (r: Vec<u8>)
        ensures
            r@ == self.spec_bytes(),
    {
        let mut out: Vec<u8> = Vec::new();
        self.header.put(&mut out);
        put_i32(&mut out, self.fd);
        put_u32(&mut out, self.flags);
        out
    }
}

/// A mapping was requested with the given protection bits.
#[derive(Clone, Copy, Debug, PartialEq, Eq, Structural)]
pub struct MmapEvent {
    pub header: EventHeader,
    pub fd: Fd,
    pub prot: u32,
    pub flags: u32,
}

pub open spec fn spec_mmap(b: Seq<u8>) -> MmapEvent {
    MmapEvent { header: spec_header(b), fd: i32_at(b, 12), prot: u32_at(b, 16), flags: u32_at(b, 20) }
}

impl MmapEvent {
    pub open spec fn spec_bytes(self) -> Seq<u8> {
        self.header.spec_bytes() + i32_bytes(self.fd) + u32_bytes(self.prot) + u32_bytes(
            self.flags,
        )
    }

    /// Reads a mapping record; `None` when `buf` is too short for one.
    pub fn decode(buf: &[u8]) -> (r: Option<MmapEvent>)
        ensures
            r == (if buf@.len() >= MMAP_LEN { Some(spec_mmap(buf@)) } else { None }),
    {
        if buf.len() < MMAP_LEN {
            return None;
        }
        let header = EventHeader::decode(buf).unwrap();
        Some(
            MmapEvent {
                header,
                fd: read_i32(buf, 12),
                prot: read_u32(buf, 16),
                flags: read_u32(buf, 20),
            },
        )
    }

    pub fn to_bytes(&self) -> (r: Vec<u8>)
        ensures
            r@ == self.spec_bytes(),
    {
        let mut out: Vec<u8> = Vec::new();
        self.header.put(&mut out);
        put_i32(&mut out, self.fd);
        put_u32(&mut out, self.prot);
        put_u32(&mut out, self.flags);
        out
    }
}

/// A socket was created: the descriptor returned and the arguments given at entry.
#[derive(Clone, Copy, Debug, PartialEq, Eq, Structural)]
pub struct SocketAllocEvent {
    pub header: EventHeader,
    pub fd: Fd,
    pub domain: u32,
    pub type_: u32,
    pub protocol: u32,
}

pub open spec fn spec_socket_alloc(b: Seq<u8>) -> SocketAllocEvent {
    SocketAllocEvent {
        header: spec_header(b),
        fd: i32_at(b, 12),
        domain: u32_at(b, 16),
        type_: u32_at(b, 20),
        protocol: u32_at(b, 24),
    }
}

impl SocketAllocEvent {
    pub open spec fn spec_bytes(self) -> Seq<u8> {
        self.header.spec_bytes() + i32_bytes(self.fd) + u32_bytes(self.domain) + u32_bytes(
            self.type_,
        ) + u32_bytes(self.protocol)
    }

    /// Reads a socket-creation record; `None` when `buf` is too short for one.
    pub fn decode(buf: &[u8]) -> (r: Option<SocketAllocEvent>)
        ensures
            r == (if buf@.len() >= SOCKET_ALLOC_LEN {
                Some(spec_socket_alloc(buf@))
            } else {
                None
            }),
    {
        if buf.len() < SOCKET_ALLOC_LEN {
            return None;
        }
        let header = EventHeader::decode(buf).unwrap();
        Some(
            SocketAllocEvent {
                header,
                fd: read_i32(buf, 12),
                domain: read_u32(buf, 16),
                type_: read_u32(buf, 20),
                protocol: read_u32(buf, 24),
            },
        )
    }

    pub fn to_bytes(&self) -> (r: Vec<u8>)
        ensures
            r@ == self.spec_bytes(),
    {
        let mut out: Vec<u8> = Vec::new();
        self.header.put(&mut out);
        put_i32(&mut out, self.fd);
        put_u32(&mut out, self.domain);
        put_u32(&mut out, self.type_);
        put_u32(&mut out, self.protocol);
        out
    }
}

/// A connect was attempted. `ip` and `port` hold the address bytes exactly as
/// the caller passed them, that is in network byte order.
#[derive(Clone, Copy, Debug, PartialEq, Eq, Structural)]
pub struct SocketConnectEvent {
    pub header: EventHeader,
    pub fd: Fd,
    pub ip: u32,
    pub port: u16,
    /// 0 for an IPv4 destination, 1 for IPv6.
    pub is_ipv6: u8,
}

pub open spec fn spec_socket_connect(b: Seq<u8>) -> SocketConnectEvent {
    SocketConnectEvent {
        header: spec_header(b),
        fd: i32_at(b, 12),
        ip: u32_at(b, 16),
        port: u16_at(b, 20),
        is_ipv6: b[22],
    }
}

impl SocketConnectEvent {
    pub open spec fn spec_bytes(self) -> Seq<u8> {
        self.header.spec_bytes() + i32_bytes(self.fd) + u32_bytes(self.ip) + u16_bytes(self.port)
            + seq![self.is_ipv6, 0u8]
    }

    /// Reads a connect record; `None` when `buf` is too short for one.
    pub fn decode(buf: &[u8]) -> (r: Option<SocketConnectEvent>)
        ensures
            r == (if buf@.len() >= SOCKET_CONNECT_LEN {
                Some(spec_socket_connect(buf@))
            } else {
                None
            }),
    {
        if buf.len() < SOCKET_CONNECT_LEN {
            return None;
        }
        let header = EventHeader::decode(buf).unwrap();
        Some(
            SocketConnectEvent {
                header,
                fd: read_i32(buf, 12),
                ip: read_u32(buf, 16),
                port: read_u16(buf, 20),
                is_ipv6: buf[22],
            },
        )
    }

    pub fn to_bytes(&self) -> (r: Vec<u8>)
        ensures
            r@ == self.spec_bytes(),
    {
        let mut out: Vec<u8> = Vec::new();
        self.header.put(&mut out);
        put_i32(&mut out, self.fd);
        put_u32(&mut out, self.ip);
        put_u16(&mut out, self.port);
        out.push(self.is_ipv6);
        out.push(0u8);
        assert(out@ =~= self.spec_bytes());
        out
    }
}

/// A descriptor was duplicated onto another number.
#[derive(Clone, Copy, Debug, PartialEq, Eq, Structural)]
pub struct DupEvent {
    pub header: EventHeader,
    pub old_fd: Fd,
    pub new_fd: Fd,
}

pub open spec fn spec_dup(b: Seq<u8>) -> DupEvent {
    DupEvent { header: spec_header(b), old_fd: i32_at(b, 12), new_fd: i32_at(b, 16) }
}

impl DupEvent {
    pub open spec fn spec_bytes(self) -> Seq<u8> {
        self.header.spec_bytes() + i32_bytes(self.old_fd) + i32_bytes(self.new_fd)
    }

    /// Reads a duplication record; `None` when `buf` is too short for one.
    pub fn decode(buf: &[u8]) -> (r: Option<DupEvent>)
        ensures
            r == (if buf@.len() >= DUP_LEN { Some(spec_dup(buf@)) } else { None }),
    {
        if buf.len() < DUP_LEN {
            return None;
        }
        let header = EventHeader::decode(buf).unwrap();
        Some(DupEvent { header, old_fd: read_i32(buf, 12), new_fd: read_i32(buf, 16) })
    }

    pub fn to_bytes(&self) -> (r: Vec<u8>)
        ensures
            r@ == self.spec_bytes(),
    {
        let mut out: Vec<u8> = Vec::new();
        self.header.put(&mut out);
        put_i32(&mut out, self.old_fd);
        put_i32(&mut out, self.new_fd);
        out
    }
}

// ---------------------------------------------------------------------------
// Decoding what the probes encode gives back the same record
// ---------------------------------------------------------------------------
/// Decoding an encoded header gives back every field.
pub proof fn lemma_header_round_trip(h: EventHeader)
    ensures
        h.spec_bytes().len() == HEADER_LEN,
        spec_header(h.spec_bytes()) == h,
{
    lemma_header_prefix(h, Seq::empty());
    assert(h.spec_bytes() + Seq::<u8>::empty() =~= h.spec_bytes());
}

/// Decoding an encoded memory-file record gives back the header, the
/// descriptor and the whole filename buffer, byte for byte.
pub proof fn lemma_memfd_round_trip(e: MemfdEvent)
    ensures
        e.spec_bytes().len() == MEMFD_LEN,
        memfd_matches(e.spec_bytes(), e),
{
    let b = e.spec_bytes();
    lemma_header_prefix(e.header, e.filename@ + i32_bytes(e.fd));
    assert(b =~= e.header.spec_bytes() + (e.filename@ + i32_bytes(e.fd)));
    assert(b.subrange(12, 76) =~= e.filename@);
    lemma_u32_in_middle(e.header.spec_bytes() + e.filename@, i32_bytes(e.fd), Seq::empty());
    assert(b =~= e.header.spec_bytes() + e.filename@ + i32_bytes(e.fd) + Seq::<u8>::empty());
    lemma_i32_round_trip(e.fd);
}

/// Decoding an encoded execute-at-fd record gives back every field.
pub proof fn lemma_execve_round_trip(e: ExecveEvent)
    ensures
        e.spec_bytes().len() == EXECVE_LEN,
        spec_execve(e.spec_bytes()) == e,
{
    let h = e.header.spec_bytes();
    let b = e.spec_bytes();
    lemma_header_prefix(e.header, i32_bytes(e.fd) + u32_bytes(e.flags));
    assert(b =~= h + (i32_bytes(e.fd) + u32_bytes(e.flags)));
    lemma_u32_in_middle(h, i32_bytes(e.fd), u32_bytes(e.flags));
    lemma_u32_in_middle(h + i32_bytes(e.fd), u32_bytes(e.flags), Seq::empty());
    assert(b =~= h + i32_bytes(e.fd) + u32_bytes(e.flags) + Seq::<u8>::empty());
    lemma_i32_round_trip(e.fd);
    lemma_u32_round_trip(e.flags);
}

/// Decoding an encoded mapping record gives back every field.
pub proof fn lemma_mmap_round_trip(e: MmapEvent)
    ensures
        e.spec_bytes().len() == MMAP_LEN,
        spec_mmap(e.spec_bytes()) == e,
{
    let h = e.header.spec_bytes();
    let b = e.spec_bytes();
    let f = i32_bytes(e.fd);
    let p = u32_bytes(e.prot);
    let g = u32_bytes(e.flags);
    lemma_header_prefix(e.header, f + p + g);
    assert(b =~= h + (f + p + g));
    lemma_u32_in_middle(h, f, p + g);
    assert(b =~= h + f + (p + g));
    lemma_u32_in_middle(h + f, p, g);
    lemma_u32_in_middle(h + f + p, g, Seq::empty());
    assert(b =~= h + f + p + g + Seq::<u8>::empty());
    lemma_i32_round_trip(e.fd);
    lemma_u32_round_trip(e.prot);
    lemma_u32_round_trip(e.flags);
}

/// Decoding an encoded socket-creation record gives back every field.
pub proof fn lemma_socket_alloc_round_trip(e: SocketAllocEvent)
    ensures
        e.spec_bytes().len() == SOCKET_ALLOC_LEN,
        spec_socket_alloc(e.spec_bytes()) == e,
{
    let h = e.header.spec_bytes();
    let b = e.spec_bytes();
    let f = i32_bytes(e.fd);
    let d = u32_bytes(e.domain);
    let t = u32_bytes(e.type_);
    let p = u32_bytes(e.protocol);
    lemma_header_prefix(e.header, f + d + t + p);
    assert(b =~= h + (f + d + t + p));
    lemma_u32_in_middle(h, f, d + t + p);
    assert(b =~= h + f + (d + t + p));
    lemma_u32_in_middle(h + f, d, t + p);
    assert(b =~= h + f + d + (t + p));
    lemma_u32_in_middle(h + f + d, t, p);
    lemma_u32_in_middle(h + f + d + t, p, Seq::empty());
    assert(b =~= h + f + d + t + p + Seq::<u8>::empty());
    lemma_i32_round_trip(e.fd);
    lemma_u32_round_trip(e.domain);
    lemma_u32_round_trip(e.type_);
    lemma_u32_round_trip(e.protocol);
}

/// Decoding an encoded connect record gives back every field.
pub proof fn lemma_socket_connect_round_trip(e: SocketConnectEvent)
    ensures
        e.spec_bytes().len() == SOCKET_CONNECT_LEN,
        spec_socket_connect(e.spec_bytes()) == e,
{
    let h = e.header.spec_bytes();
    let b = e.spec_bytes();
    let f = i32_bytes(e.fd);
    let a = u32_bytes(e.ip);
    let p = u16_bytes(e.port);
    let t = seq![e.is_ipv6, 0u8];
    lemma_header_prefix(e.header, f + a + p + t);
    assert(b =~= h + (f + a + p + t));
    lemma_u32_in_middle(h, f, a + p + t);
    assert(b =~= h + f + (a + p + t));
    lemma_u32_in_middle(h + f, a, p + t);
    assert(b =~= h + f + a + (p + t));
    lemma_u16_in_middle(h + f + a, p, t);
    assert(b[22] == e.is_ipv6);
    lemma_i32_round_trip(e.fd);
    lemma_u32_round_trip(e.ip);
    lemma_u16_round_trip(e.port);
}

/// Decoding an encoded duplication record gives back every field.
pub proof fn lemma_dup_round_trip(e: DupEvent)
    ensures
        e.spec_bytes().len() == DUP_LEN,
        spec_dup(e.spec_bytes()) == e,
{
    let h = e.header.spec_bytes();
    let b = e.spec_bytes();
    lemma_header_prefix(e.header, i32_bytes(e.old_fd) + i32_bytes(e.new_fd));
    assert(b =~= h + (i32_bytes(e.old_fd) + i32_bytes(e.new_fd)));
    lemma_u32_in_middle(h, i32_bytes(e.old_fd), i32_bytes(e.new_fd));
    lemma_u32_in_middle(h + i32_bytes(e.old_fd), i32_bytes(e.new_fd), Seq::empty());
    assert(b =~= h + i32_bytes(e.old_fd) + i32_bytes(e.new_fd) + Seq::<u8>::empty());
    lemma_i32_round_trip(e.old_fd);
    lemma_i32_round_trip(e.new_fd);
}

} // verus!
