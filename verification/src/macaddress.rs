//! MAC addresses written in the usual ways.

use vstd::prelude::*;
use crate::codec::{hex_decode, hex_decoded};
use crate::text::{chars_of, concat2, owned, push_char, push_str};

verus! {

#[verifier::external_type_specification]
#[verifier::external_body]
pub struct ExMacAddress(mac_address::MacAddress);

/// The six octets a MAC address holds.
pub uninterp spec fn mac_octets(mac: mac_address::MacAddress) -> Seq<u8>;

/// The MAC address with these octets (`MacAddress::new`).
#[verifier::external_body]
fn mac_from_octets(octets: [u8; 6]) -> (r: mac_address::MacAddress)
    ensures
        mac_octets(r) == octets@,
{
    mac_address::MacAddress::new(octets)
}

/// A separator people write between the octets: `:`, `-`, `.` or a space.
pub open spec fn is_separator(c: char) -> bool {
    c == ':' || c == '-' || c == '.' || c == ' '
}

/// The text without its separators.
pub open spec fn without_separators(s: Seq<char>) -> Seq<char>
    decreases s.len(),
{
    if s.len() == 0 {
        Seq::empty()
    } else if is_separator(s.last()) {
        without_separators(s.drop_last())
    } else {
        without_separators(s.drop_last()).push(s.last())
    }
}

fn strip_separators(s: &str) -> (r: String)
    ensures
        r@ == without_separators(s@),
{
    let cs = chars_of(s);
    let mut out = String::new();
    let mut i: usize = 0;
    while i < cs.len()
        invariant
            i <= cs.len(),
            cs@ == s@,
            out@ == without_separators(cs@.take(i as int)),
        decreases cs.len() - i,
    {
        assert(cs@.take(i + 1).drop_last() =~= cs@.take(i as int));
        let c = cs[i];
        if !(c == ':' || c == '-' || c == '.' || c == ' ') {
            push_char(&mut out, c);
        }
        i = i + 1;
    }
    assert(cs@.take(cs@.len() as int) =~= cs@);
    out
}

/// The octets a MAC address text stands for, or why it stands for none:
/// without its separators it must be twelve bytes of hex.
pub open spec fn spec_mac_octets(text: Seq<char>) -> Result<Seq<u8>, Seq<char>> {
    let clean = vstd::utf8::encode_utf8(without_separators(text));
    if clean.len() != 12 {
        Err("Invalid MAC address length: "@ + text)
    } else {
        match hex_decoded(clean) {
            Some(bytes) => Ok(bytes),
            None => Err("Invalid hex in MAC address "@ + text),
        }
    }
}

/// The six octets a MAC address text stands for, in any of the usual
/// notations (`00:04:20:ab:cd:ef`, `00-04-20-AB-CD-EF`, `0004.20ab.cdef`).
pub fn mac_octets_of(mac_str: &str) -> (r: Result<[u8; 6], String>)
    ensures
        r is Ok <==> spec_mac_octets(mac_str@) is Ok,
        r matches Ok(o) ==> (spec_mac_octets(mac_str@) matches Ok(v) && v == o@),
        r matches Err(m) ==> (spec_mac_octets(mac_str@) matches Err(p) && is_prefix_of(p, m@)),
{
    let clean = strip_separators(mac_str);
    let clean_bytes = clean.as_str().as_bytes_vec();
    if clean_bytes.len() != 12 {
        let m = concat2("Invalid MAC address length: ", mac_str);
        assert(m@.subrange(0, m@.len() as int) =~= m@);
        return Err(m);
    }
    let bytes = match hex_decode(clean.as_str()) {
        Ok(b) => b,
        Err(e) => {
            let mut m = concat2("Invalid hex in MAC address ", mac_str);
            let ghost p0 = m@;
            push_str(&mut m, ": ");
            let ghost p = m@;
            push_str(&mut m, e.as_str());
            assert(m@.subrange(0, p0.len() as int) =~= p0);
            return Err(m);
        },
    };
    if bytes.len() != 6 {
        proof {
            assert(false);
        }
        return Err(concat2("MAC address didn't convert to 6 bytes: ", mac_str));
    }
    let octets: [u8; 6] = [bytes[0], bytes[1], bytes[2], bytes[3], bytes[4], bytes[5]];
    assert(octets@ =~= bytes@);
    Ok(octets)
}

/// `p` is a prefix of `s`.
pub open spec fn is_prefix_of(p: Seq<char>, s: Seq<char>) -> bool {
    p.len() <= s.len() && s.subrange(0, p.len() as int) == p
}

/// The MAC address a text stands for.
pub fn normalize_mac_address(mac_str: &str) -> (r: Result<mac_address::MacAddress, String>)
    ensures
        r is Ok <==> spec_mac_octets(mac_str@) is Ok,
        r matches Ok(mac) ==> (spec_mac_octets(mac_str@) matches Ok(v) && v == mac_octets(mac)),
{
    match mac_octets_of(mac_str) {
        Ok(o) => Ok(mac_from_octets(o)),
        Err(e) => Err(e),
    }
}

} // verus!
