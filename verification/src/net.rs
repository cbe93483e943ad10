//! Network addresses as plain numbers, and their textual forms.
use vstd::prelude::*;
use crate::text::{
    chars_of, decimal, decimal_text, joined3, joined4, parse_number, split, split_at_char, texts,
};

verus! {

/// An IP address: its bits, the first octet in the highest place.
#[derive(Clone, Copy, Debug, PartialEq, Eq, Structural, Hash)]
pub enum IpAddress {
    V4(u32),
    V6(u128),
}

/// A transport address.
#[derive(Clone, Copy, Debug, PartialEq, Eq, Structural, Hash)]
pub struct SocketAddress {
    pub ip: IpAddress,
    pub port: u16,
}

/// The address whose octets are `a`, `b`, `c` and `d`.
pub open spec fn ipv4_bits(a: nat, b: nat, c: nat, d: nat) -> nat {
    a * 0x100_0000 + b * 0x1_0000 + c * 0x100 + d
}

/// The dotted decimal notation of four octets.
pub open spec fn ipv4_text(a: u8, b: u8, c: u8, d: u8) -> Seq<char> {
    decimal(a as nat) + seq!['.'] + decimal(b as nat) + seq!['.'] + decimal(c as nat) + seq!['.']
        + decimal(d as nat)
}

/// The octet that `s` denotes: its decimal notation, with no sign and no
/// superfluous zero.
pub open spec fn octet(s: Seq<char>) -> Option<nat> {
    if s.len() == 0 || s[0] == '+' || (s.len() > 1 && s[0] == '0') {
        None
    } else {
        crate::text::number(s, 10, 255)
    }
}

/// The IPv4 address that `s` denotes: four octets with full stops between.
pub open spec fn ipv4_value(s: Seq<char>) -> Option<nat> {
    let parts = split(s, '.');
    if parts.len() != 4 {
        None
    } else {
        match (octet(parts[0]), octet(parts[1]), octet(parts[2]), octet(parts[3])) {
            (Some(a), Some(b), Some(c), Some(d)) => Some(ipv4_bits(a, b, c, d)),
            _ => None,
        }
    }
}

/// What `core::net::Ipv6Addr` prints for sixteen octets.
pub uninterp spec fn ipv6_text(octets: Seq<u8>) -> Seq<char>;

/// The bits of the address that `core::net::Ipv6Addr` reads from a text, if it
/// reads one.
pub uninterp spec fn ipv6_value(s: Seq<char>) -> Option<u128>;

/// The address that `s` denotes, in either family.
pub open spec fn ip_value(s: Seq<char>) -> Option<IpAddress> {
    match ipv4_value(s) {
        Some(bits) => Some(IpAddress::V4(bits as u32)),
        None => match ipv6_value(s) {
            Some(bits) => Some(IpAddress::V6(bits)),
            None => None,
        },
    }
}

/// The `Display` form of `core::net::Ipv6Addr`, for the address with these
/// octets. Nothing more is claimed of the text than that the octets determine
/// it.
#[verifier::external_body]
pub(crate) fn show_ipv6(octets: [u8; 16]) -> (text: String)
    ensures
        text@ == ipv6_text(octets@),
{
    core::net::Ipv6Addr::from(octets).to_string()
}

/// `str::parse` into `core::net::Ipv6Addr`. Nothing more is claimed of the
/// outcome than that the text determines it.
#[verifier::external_body]
fn read_ipv6(text: &str) -> (bits: Option<u128>)
    ensures
        bits == ipv6_value(text@),
{
    match text.parse::<core::net::Ipv6Addr>() {
        Ok(address) => Some(u128::from(address)),
        Err(_) => None,
    }
}

fn parse_octet(s: &[char]) -> (r: Option<u8>)
    ensures
        r is Some <==> octet(s@) is Some,
        r is Some ==> r->0 == octet(s@)->0,
{
    if s.len() == 0 || s[0] == '+' || (s.len() > 1 && s[0] == '0') {
        return None;
    }
    match parse_number(s, 10, 255) {
        Some(v) => Some(v as u8),
        None => None,
    }
}

/// The IPv4 address that the text denotes.
pub fn parse_ipv4(text: &str) -> (bits: Option<u32>)
    ensures
        bits is Some <==> ipv4_value(text@) is Some,
        bits is Some ==> bits->0 == ipv4_value(text@)->0,
{
    let chars = chars_of(text);
    let parts = split_at_char(chars.as_slice(), '.');
    assert(texts(parts@).len() == parts@.len());
    if parts.len() != 4 {
        return None;
    }
    assert(forall|i: int| 0 <= i < 4 ==> texts(parts@)[i] == parts@[i]@);
    let a = parse_octet(chars_of(parts[0].as_str()).as_slice());
    let b = parse_octet(chars_of(parts[1].as_str()).as_slice());
    let c = parse_octet(chars_of(parts[2].as_str()).as_slice());
    let d = parse_octet(chars_of(parts[3].as_str()).as_slice());
    match (a, b, c, d) {
        (Some(a), Some(b), Some(c), Some(d)) => Some(
            (a as u32) * 0x100_0000 + (b as u32) * 0x1_0000 + (c as u32) * 0x100 + (d as u32),
        ),
        _ => None,
    }
}

/// The IPv6 address that the text denotes.
pub fn parse_ipv6(text: &str) -> (bits: Option<u128>)
    ensures
        bits == ipv6_value(text@),
{
    read_ipv6(text)
}

/// The address that the text denotes, in either family.
pub fn parse_ip(text: &str) -> (ip: Option<IpAddress>)
    ensures
        ip == ip_value(text@),
{
    match parse_ipv4(text) {
        Some(bits) => Some(IpAddress::V4(bits)),
        None => match parse_ipv6(text) {
            Some(bits) => Some(IpAddress::V6(bits)),
            None => None,
        },
    }
}

/// The dotted decimal notation of four octets.
pub fn show_ipv4(a: u8, b: u8, c: u8, d: u8) -> (text: String)
    ensures
        text@ == ipv4_text(a, b, c, d),
{
    let mut text = decimal_text(a as u64);
    text.push('.');
    text.append(decimal_text(b as u64).as_str());
    text.push('.');
    text.append(decimal_text(c as u64).as_str());
    text.push('.');
    text.append(decimal_text(d as u64).as_str());
    assert(text@ =~= ipv4_text(a, b, c, d));
    text
}

/// The octets of an IPv4 address, the highest first.
pub open spec fn ipv4_octets(bits: u32) -> Seq<u8> {
    seq![
        (bits as nat / 0x100_0000) as u8,
        (bits as nat / 0x1_0000 % 0x100) as u8,
        (bits as nat / 0x100 % 0x100) as u8,
        (bits as nat % 0x100) as u8,
    ]
}

/// The octets of a number, `n` of them, the highest first.
pub open spec fn number_octets(value: nat, n: nat) -> Seq<u8>
    decreases n,
{
    if n == 0 {
        Seq::empty()
    } else {
        number_octets(value / 0x100, (n - 1) as nat).push((value % 0x100) as u8)
    }
}

/// A transport address as text: an IPv6 address stands in square brackets.
pub open spec fn socket_text(address: SocketAddress) -> Seq<char> {
    match address.ip {
        IpAddress::V4(bits) => {
            let o = ipv4_octets(bits);
            ipv4_text(o[0], o[1], o[2], o[3]) + ":"@ + decimal(address.port as nat)
        },
        IpAddress::V6(bits) => "["@ + ipv6_text(number_octets(bits as nat, 16)) + "]:"@ + decimal(
            address.port as nat,
        ),
    }
}

fn octets_of_bits(bits: u128) -> (octets: [u8; 16])
    ensures
        octets@ == number_octets(bits as nat, 16),
{
    let mut octets: [u8; 16] = [0; 16];
    let mut rest: u128 = bits;
    let mut left: usize = 16;
    while left > 0
        invariant
            left <= 16,
            octets@.len() == 16,
            number_octets(rest as nat, left as nat) + octets@.skip(left as int) == number_octets(
                bits as nat,
                16,
            ),
        decreases left,
    {
        let b: u8 = (rest % 0x100) as u8;
        let ghost before = octets@;
        let ghost high = number_octets((rest / 0x100) as nat, (left - 1) as nat);
        assert(number_octets(rest as nat, left as nat) == high.push(b));
        left = left - 1;
        octets[left] = b;
        assert(high.push(b) + before.skip(left + 1) =~= high + octets@.skip(left as int));
        rest = rest / 0x100;
    }
    assert(octets@.skip(0) =~= octets@);
    assert(Seq::<u8>::empty() + octets@ =~= octets@);
    octets
}

/// A transport address as text.
pub fn show_socket(address: SocketAddress) -> (text: String)
    ensures
        text@ == socket_text(address),
{
    match address.ip {
        IpAddress::V4(bits) => {
            let a: u8 = (bits / 0x100_0000) as u8;
            let b: u8 = (bits / 0x1_0000 % 0x100) as u8;
            let c: u8 = (bits / 0x100 % 0x100) as u8;
            let d: u8 = (bits % 0x100) as u8;
            joined3(show_ipv4(a, b, c, d).as_str(), ":", decimal_text(address.port as u64).as_str())
        },
        IpAddress::V6(bits) => joined4(
            "[",
            show_ipv6(octets_of_bits(bits)).as_str(),
            "]:",
            decimal_text(address.port as u64).as_str(),
        ),
    }
}

} // verus!
