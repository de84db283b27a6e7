//! The SOCKS5 handshake of the local proxy: which client messages are
//! accepted, how the destination is decoded, and the bytes answered. The
//! caller reads and writes the socket and opens the Tor stream.

use vstd::prelude::*;
use crate::text::{decimal, push_char, u64_to_decimal};

verus! {

/// SOCKS protocol version 5.
pub const SOCKS_VERSION: u8 = 0x05;
/// The CONNECT command.
pub const CMD_CONNECT: u8 = 0x01;

/// Kind of destination address in a request.
#[derive(Clone, Copy, Debug, PartialEq, Eq, Structural)]
pub enum AddressKind {
    /// Four bytes of IPv4 address follow.
    Ipv4,
    /// One length byte, then that many bytes of domain name.
    Domain,
    /// Sixteen bytes of IPv6 address follow.
    Ipv6,
}

/// Number of method bytes announced by a client greeting, or `None` when the
/// greeting is not SOCKS5 (the connection is then closed).
pub fn greeting_methods(greeting: &[u8]) -> (r: Option<usize>)
    requires
        greeting@.len() == 2,
    ensures
        greeting@[0] == SOCKS_VERSION ==> r == Some(greeting@[1] as usize),
        greeting@[0] != SOCKS_VERSION ==> r is None,
{
    if greeting[0] != SOCKS_VERSION {
        None
    } else {
        Some(greeting[1] as usize)
    }
}

/// The method selection answered to every SOCKS5 greeting: version 5, "no
/// authentication".
pub fn method_selection_reply() -> (r: Vec<u8>)
    ensures
        r@ == seq![0x05u8, 0x00u8],
{
    let mut v: Vec<u8> = Vec::new();
    v.push(0x05);
    v.push(0x00);
    v
}

/// The kind of destination of a request header (version, command, reserved,
/// address type), or `None` when the request is not a SOCKS5 CONNECT with a
/// known address type (the connection is then closed).
pub fn request_address_kind(head: &[u8]) -> (r: Option<AddressKind>)
    requires
        head@.len() == 4,
    ensures
        (head@[0] != SOCKS_VERSION || head@[1] != CMD_CONNECT) ==> r is None,
        (head@[0] == SOCKS_VERSION && head@[1] == CMD_CONNECT) ==> r == (if head@[3] == 1 {
            Some(AddressKind::Ipv4)
        } else if head@[3] == 3 {
            Some(AddressKind::Domain)
        } else if head@[3] == 4 {
            Some(AddressKind::Ipv6)
        } else {
            None
        }),
{
    if head[0] != SOCKS_VERSION || head[1] != CMD_CONNECT {
        return None;
    }
    if head[3] == 0x01 {
        Some(AddressKind::Ipv4)
    } else if head[3] == 0x03 {
        Some(AddressKind::Domain)
    } else if head[3] == 0x04 {
        Some(AddressKind::Ipv6)
    } else {
        None
    }
}

/// Dotted-decimal text of an IPv4 address (as `Ipv4Addr`'s `Display`).
pub open spec fn ipv4_text(b: Seq<u8>) -> Seq<char> {
    decimal(b[0] as nat) + seq!['.'] + decimal(b[1] as nat) + seq!['.'] + decimal(b[2] as nat) + seq!['.']
        + decimal(b[3] as nat)
}

/// The destination of an IPv4 request, as text.
pub fn ipv4_destination(ip: &[u8]) -> (r: String)
    requires
        ip@.len() == 4,
    ensures
        r@ == ipv4_text(ip@),
{
    let mut s = u64_to_decimal(ip[0] as u64);
    push_char(&mut s, '.');
    let a = u64_to_decimal(ip[1] as u64);
    s.append(a.as_str());
    push_char(&mut s, '.');
    let b = u64_to_decimal(ip[2] as u64);
    s.append(b.as_str());
    push_char(&mut s, '.');
    let c = u64_to_decimal(ip[3] as u64);
    s.append(c.as_str());
    proof {
        assert(s@ =~= ipv4_text(ip@));
    }
    s
}

/// The text of a domain name sent by the client, decoded as UTF-8 with
/// invalid sequences replaced (`String::from_utf8_lossy`).
pub uninterp spec fn lossy_utf8(bytes: Seq<u8>) -> Seq<char>;

/// Decodes domain bytes with `String::from_utf8_lossy`; the result is a
/// function of the bytes alone and is only named here.
#[verifier::external_body]
fn from_utf8_lossy(bytes: &[u8]) -> (r: String)
    ensures
        r@ == lossy_utf8(bytes@),
{
    String::from_utf8_lossy(bytes).to_string()
}

/// The destination of a domain request, as text.
pub fn domain_destination(name: &[u8]) -> (r: String)
    ensures
        r@ == lossy_utf8(name@),
{
    from_utf8_lossy(name)
}

/// The destination port, sent in network byte order.
pub fn destination_port(p: &[u8]) -> (r: u16)
    requires
        p@.len() == 2,
    ensures
        r == p@[0] as int * 256 + p@[1] as int,
{
    (p[0] as u16) * 256 + (p[1] as u16)
}

/// The reply to a CONNECT request: "succeeded" when the Tor stream opened,
/// "host unreachable" otherwise, with an all-zero IPv4 bound address.
pub fn connect_reply(opened: bool) -> (r: Vec<u8>)
    ensures
        r@ == seq![0x05u8, if opened { 0x00u8 } else { 0x04u8 }, 0x00u8, 0x01u8, 0u8, 0u8, 0u8, 0u8, 0u8, 0u8],
{
    let mut v: Vec<u8> = Vec::new();
    v.push(0x05);
    v.push(if opened { 0x00 } else { 0x04 });
    v.push(0x00);
    v.push(0x01);
    let mut i: usize = 0;
    while i < 6
        invariant
            i <= 6,
            v@.len() == 4 + i,
            v@.take(4) == seq![0x05u8, if opened { 0x00u8 } else { 0x04u8 }, 0x00u8, 0x01u8],
            forall|j: int| 4 <= j < v@.len() ==> v@[j] == 0u8,
        decreases 6 - i,
    {
        v.push(0);
        i = i + 1;
    }
    assert(v@ =~= seq![0x05u8, if opened { 0x00u8 } else { 0x04u8 }, 0x00u8, 0x01u8, 0u8, 0u8, 0u8, 0u8, 0u8, 0u8]);
    v
}

/// Every port survives the trip through network byte order.
pub proof fn law_port_roundtrip(port: u16)
    ensures
        (port / 256) * 256 + port % 256 == port,
        port / 256 < 256,
        port % 256 < 256,
{
}

} // verus!
