//! Socket domains and types, and the remote endpoint of a connect.
use vstd::prelude::*;

use crate::abi::{
    spec_socket_connect, u16_at, u16_bytes, u32_at, u32_bytes, SocketConnectEvent,
    SOCKET_CONNECT_LEN,
};

verus! {

/// Relies on libc::AF_INET, the IPv4 address family: 2 on Linux.
#[verifier::external_body]
fn af_inet() -> (r: i32)
    ensures
        r == 2,
{
    libc::AF_INET
}

/// Relies on libc::AF_INET6, the IPv6 address family: 10 on Linux.
#[verifier::external_body]
fn af_inet6() -> (r: i32)
    ensures
        r == 10,
{
    libc::AF_INET6
}

/// Relies on libc::AF_UNIX, the local address family: 1 on Linux.
#[verifier::external_body]
fn af_unix() -> (r: i32)
    ensures
        r == 1,
{
    libc::AF_UNIX
}

/// Relies on libc::AF_NETLINK, the kernel message family: 16 on Linux.
#[verifier::external_body]
fn af_netlink() -> (r: i32)
    ensures
        r == 16,
{
    libc::AF_NETLINK
}

/// Relies on libc::AF_PACKET, the raw packet family: 17 on Linux.
#[verifier::external_body]
fn af_packet() -> (r: i32)
    ensures
        r == 17,
{
    libc::AF_PACKET
}

/// Relies on libc::SOCK_STREAM: 1 on Linux (MIPS excepted, which this sensor does not run on).
#[verifier::external_body]
fn sock_stream() -> (r: i32)
    ensures
        r == 1,
{
    libc::SOCK_STREAM
}

/// Relies on libc::SOCK_DGRAM: 2 on Linux (MIPS excepted, which this sensor does not run on).
#[verifier::external_body]
fn sock_dgram() -> (r: i32)
    ensures
        r == 2,
{
    libc::SOCK_DGRAM
}

/// Relies on libc::SOCK_RAW: 3 on Linux.
#[verifier::external_body]
fn sock_raw() -> (r: i32)
    ensures
        r == 3,
{
    libc::SOCK_RAW
}

/// Relies on libc::SOCK_SEQPACKET: 5 on Linux.
#[verifier::external_body]
fn sock_seqpacket() -> (r: i32)
    ensures
        r == 5,
{
    libc::SOCK_SEQPACKET
}

/// The address family a socket was created with.
#[derive(Debug, Clone, Copy, PartialEq, Eq, Structural)]
pub enum SocketDomain {
    Ipv4,
    Ipv6,
    Unix,
    Netlink,
    Packet,
    Unknown(u32),
}

/// The domain that a raw `socket()` domain argument names.
pub open spec fn spec_domain(val: u32) -> SocketDomain {
    let v = val as i32;
    if v == 2 {
        SocketDomain::Ipv4
    } else if v == 10 {
        SocketDomain::Ipv6
    } else if v == 1 {
        SocketDomain::Unix
    } else if v == 16 {
        SocketDomain::Netlink
    } else if v == 17 {
        SocketDomain::Packet
    } else {
        SocketDomain::Unknown(val)
    }
}

impl From<u32> for SocketDomain {
    fn from(val: u32) -> (r: SocketDomain)
        ensures
            r == spec_domain(val),
    {
        let v = val as i32;
        if v == af_inet() {
            SocketDomain::Ipv4
        } else if v == af_inet6() {
            SocketDomain::Ipv6
        } else if v == af_unix() {
            SocketDomain::Unix
        } else if v == af_netlink() {
            SocketDomain::Netlink
        } else if v == af_packet() {
            SocketDomain::Packet
        } else {
            SocketDomain::Unknown(val)
        }
    }
}

impl vstd::std_specs::convert::FromSpecImpl<u32> for SocketDomain {
    open spec fn obeys_from_spec() -> bool {
        true
    }

    open spec fn from_spec(v: u32) -> SocketDomain {
        spec_domain(v)
    }
}

/// The base type of a socket, with creation flags masked off.
#[derive(Debug, Clone, Copy, PartialEq, Eq, Structural)]
pub enum SocketType {
    Stream,
    Dgram,
    Raw,
    SeqPacket,
    Unknown(u32),
}

/// The type that a raw `socket()` type argument names; the flag bits above
/// the low four (non-blocking, close-on-exec) do not count.
pub open spec fn spec_socket_type(val: u32) -> SocketType {
    let base = (val & 0xfu32) as i32;
    if base == 1 {
        SocketType::Stream
    } else if base == 2 {
        SocketType::Dgram
    } else if base == 3 {
        SocketType::Raw
    } else if base == 5 {
        SocketType::SeqPacket
    } else {
        SocketType::Unknown(val)
    }
}

impl From<u32> for SocketType {
    fn from(val: u32) -> (r: SocketType)
        ensures
            r == spec_socket_type(val),
    {
        let base = (val & 0xfu32) as i32;
        if base == sock_stream() {
            SocketType::Stream
        } else if base == sock_dgram() {
            SocketType::Dgram
        } else if base == sock_raw() {
            SocketType::Raw
        } else if base == sock_seqpacket() {
            SocketType::SeqPacket
        } else {
            SocketType::Unknown(val)
        }
    }
}

impl vstd::std_specs::convert::FromSpecImpl<u32> for SocketType {
    open spec fn obeys_from_spec() -> bool {
        true
    }

    open spec fn from_spec(v: u32) -> SocketType {
        spec_socket_type(v)
    }
}

/// An IPv4 endpoint. `ip` is the address as a number whose most significant
/// byte is the first octet; `port` is the port number.
#[derive(Debug, Clone, Copy, PartialEq, Eq, Structural)]
pub struct RemoteAddr {
    pub ip: u32,
    pub port: u16,
}

/// The number that four bytes in network order (most significant first) spell.
pub open spec fn net_u32(b: Seq<u8>) -> u32 {
    (((b[0] as u32) << 24u32) | ((b[1] as u32) << 16u32) | ((b[2] as u32) << 8u32) | (
    b[3] as u32)) as u32
}

/// The number that two bytes in network order (most significant first) spell.
pub open spec fn net_u16(b: Seq<u8>) -> u16 {
    (((b[0] as u16) << 8u16) | (b[1] as u16)) as u16
}

/// The endpoint a connect record names: its address and port bytes, as they
/// stand in the record, are read in network byte order.
pub open spec fn spec_remote(e: SocketConnectEvent) -> Option<RemoteAddr> {
    if e.is_ipv6 != 0 {
        None
    } else {
        Some(RemoteAddr { ip: net_u32(u32_bytes(e.ip)), port: net_u16(u16_bytes(e.port)) })
    }
}

impl SocketConnectEvent {
    /// The remote endpoint of an IPv4 connect; `None` for IPv6, which is not resolved.
    pub fn to_socket_addr(&self) -> (r: Option<RemoteAddr>)
        ensures
            r == spec_remote(*self),
    {
        if self.is_ipv6 != 0 {
            return None;
        }
        let v = self.ip;
        let b0 = (v & 0xffu32) as u8;
        let b1 = ((v >> 8u32) & 0xffu32) as u8;
        let b2 = ((v >> 16u32) & 0xffu32) as u8;
        let b3 = ((v >> 24u32) & 0xffu32) as u8;
        let ip = ((b0 as u32) << 24u32) | ((b1 as u32) << 16u32) | ((b2 as u32) << 8u32) | (
        b3 as u32);
        let p = self.port;
        let p0 = (p & 0xffu16) as u8;
        let p1 = ((p >> 8u16) & 0xffu16) as u8;
        let port = ((p0 as u16) << 8u16) | (p1 as u16);
        Some(RemoteAddr { ip, port })
    }
}

// ---------------------------------------------------------------------------
// Rendering
// ---------------------------------------------------------------------------
pub open spec fn digit_char(d: nat) -> char {
    if d == 0 {
        '0'
    } else if d == 1 {
        '1'
    } else if d == 2 {
        '2'
    } else if d == 3 {
        '3'
    } else if d == 4 {
        '4'
    } else if d == 5 {
        '5'
    } else if d == 6 {
        '6'
    } else if d == 7 {
        '7'
    } else if d == 8 {
        '8'
    } else {
        '9'
    }
}

/// The decimal digits of `n`, without leading zeros.
pub open spec fn decimal(n: nat) -> Seq<char>
    decreases n,
{
    if n < 10 {
        seq![digit_char(n)]
    } else {
        decimal(n / 10).push(digit_char(n % 10))
    }
}

impl RemoteAddr {
    /// The address in dotted-quad form followed by `:` and the port.
    pub open spec fn spec_text(self) -> Seq<char> {
        decimal(((self.ip >> 24u32) & 0xffu32) as nat) + "."@ + decimal(
            ((self.ip >> 16u32) & 0xffu32) as nat,
        ) + "."@ + decimal(((self.ip >> 8u32) & 0xffu32) as nat) + "."@ + decimal(
            (self.ip & 0xffu32) as nat,
        ) + ":"@ + decimal(self.port as nat)
    }

    /// Renders the endpoint as `a.b.c.d:port`.
    pub fn to_text(&self) -> (r: String)
        ensures
            r@ == self.spec_text(),
    {
        let ip = self.ip;
        let mut s = String::new();
        push_decimal(&mut s, ((ip >> 24u32) & 0xffu32));
        push_str(&mut s, ".");
        push_decimal(&mut s, ((ip >> 16u32) & 0xffu32));
        push_str(&mut s, ".");
        push_decimal(&mut s, ((ip >> 8u32) & 0xffu32));
        push_str(&mut s, ".");
        push_decimal(&mut s, ip & 0xffu32);
        push_str(&mut s, ":");
        push_decimal(&mut s, self.port as u32);
        s
    }
}

pub(crate) fn push_str(s: &mut String, t: &str)
    ensures
        final(s)@ == old(s)@ + t@,
{
    s.append(t);
}

fn push_digit(s: &mut String, d: u32)
    requires
        d < 10,
    ensures
        final(s)@ == old(s)@.push(digit_char(d as nat)),
{
    let t: &str = if d == 0 {
        "0"
    } else if d == 1 {
        "1"
    } else if d == 2 {
        "2"
    } else if d == 3 {
        "3"
    } else if d == 4 {
        "4"
    } else if d == 5 {
        "5"
    } else if d == 6 {
        "6"
    } else if d == 7 {
        "7"
    } else if d == 8 {
        "8"
    } else {
        "9"
    };
    proof {
        reveal_strlit("0");
        reveal_strlit("1");
        reveal_strlit("2");
        reveal_strlit("3");
        reveal_strlit("4");
        reveal_strlit("5");
        reveal_strlit("6");
        reveal_strlit("7");
        reveal_strlit("8");
        reveal_strlit("9");
        assert(t@ =~= seq![digit_char(d as nat)]);
    }
    push_str(s, t);
    assert(final(s)@ =~= old(s)@.push(digit_char(d as nat)));
}

pub(crate) fn push_decimal(s: &mut String, n: u32)
    ensures
        final(s)@ == old(s)@ + decimal(n as nat),
    decreases n,
{
    if n >= 10 {
        push_decimal(s, n / 10);
    }
    push_digit(s, n % 10);
    assert(final(s)@ =~= old(s)@ + decimal(n as nat));
}

proof fn lemma_network_u32(b0: u8, b1: u8, b2: u8, b3: u8)
    ensures
        ({
            let v = ((b0 as u32) | ((b1 as u32) << 8u32) | ((b2 as u32) << 16u32) | ((b3 as u32)
                << 24u32)) as u32;
            let ip = net_u32(u32_bytes(v));
            &&& (ip >> 24u32) & 0xffu32 == b0 as u32
            &&& (ip >> 16u32) & 0xffu32 == b1 as u32
            &&& (ip >> 8u32) & 0xffu32 == b2 as u32
            &&& ip & 0xffu32 == b3 as u32
        }),
{
    let v = ((b0 as u32) | ((b1 as u32) << 8u32) | ((b2 as u32) << 16u32) | ((b3 as u32)
        << 24u32)) as u32;
    let c0 = (v & 0xffu32) as u8;
    let c1 = ((v >> 8u32) & 0xffu32) as u8;
    let c2 = ((v >> 16u32) & 0xffu32) as u8;
    let c3 = ((v >> 24u32) & 0xffu32) as u8;
    assert(c0 == b0 && c1 == b1 && c2 == b2 && c3 == b3) by (bit_vector)
        requires
            v == ((b0 as u32) | ((b1 as u32) << 8u32) | ((b2 as u32) << 16u32) | ((b3 as u32)
                << 24u32)),
            c0 == (v & 0xffu32) as u8,
            c1 == ((v >> 8u32) & 0xffu32) as u8,
            c2 == ((v >> 16u32) & 0xffu32) as u8,
            c3 == ((v >> 24u32) & 0xffu32) as u8,
    ;
    let ip = (((c0 as u32) << 24u32) | ((c1 as u32) << 16u32) | ((c2 as u32) << 8u32) | (
    c3 as u32)) as u32;
    assert((ip >> 24u32) & 0xffu32 == c0 as u32 && (ip >> 16u32) & 0xffu32 == c1 as u32 && (ip
        >> 8u32) & 0xffu32 == c2 as u32 && ip & 0xffu32 == c3 as u32) by (bit_vector)
        requires
            ip == (((c0 as u32) << 24u32) | ((c1 as u32) << 16u32) | ((c2 as u32) << 8u32) | (
            c3 as u32)),
    ;
}

proof fn lemma_network_u16(b0: u8, b1: u8)
    ensures
        net_u16(u16_bytes(((b0 as u16) | ((b1 as u16) << 8u16)) as u16)) as nat == b0 as nat
            * 256 + b1 as nat,
{
    let v = ((b0 as u16) | ((b1 as u16) << 8u16)) as u16;
    let c0 = (v & 0xffu16) as u8;
    let c1 = ((v >> 8u16) & 0xffu16) as u8;
    assert(c0 == b0 && c1 == b1) by (bit_vector)
        requires
            v == ((b0 as u16) | ((b1 as u16) << 8u16)),
            c0 == (v & 0xffu16) as u8,
            c1 == ((v >> 8u16) & 0xffu16) as u8,
    ;
    let p = (((c0 as u16) << 8u16) | (c1 as u16)) as u16;
    assert(p == (c0 as u16) * 256 + (c1 as u16)) by (bit_vector)
        requires
            p == (((c0 as u16) << 8u16) | (c1 as u16)),
    ;
}

/// Address and port of an IPv4 connect record are read in network byte
/// order: the endpoint's text is the four address bytes, in the order they
/// stand in the record, then the port, whose first byte is the high one.
pub proof fn lemma_connect_network_order(b: Seq<u8>)
    requires
        b.len() >= SOCKET_CONNECT_LEN,
        b[22] == 0,
    ensures
        spec_remote(spec_socket_connect(b)) is Some,
        spec_remote(spec_socket_connect(b))->0.spec_text() == decimal(b[16] as nat) + "."@
            + decimal(b[17] as nat) + "."@ + decimal(b[18] as nat) + "."@ + decimal(
            b[19] as nat,
        ) + ":"@ + decimal(b[20] as nat * 256 + b[21] as nat),
{
    lemma_network_u32(b[16], b[17], b[18], b[19]);
    lemma_network_u16(b[20], b[21]);
    assert(u32_at(b, 16) == ((b[16] as u32) | ((b[17] as u32) << 8u32) | ((b[18] as u32)
        << 16u32) | ((b[19] as u32) << 24u32)) as u32);
    assert(u16_at(b, 20) == ((b[20] as u16) | ((b[21] as u16) << 8u16)) as u16);
}

} // verus!
