//! IPv4 addresses in dotted-decimal text, host addresses, and reading the
//! machine's public address from a command's output.

use vstd::prelude::*;
use vstd::string::*;
use vstd::utf8::*;
use crate::text::{all_digits, decimal, digits_value, is_digit, lemma_decimal, lemma_decimal_of_digits, char_is_digit, push_char, push_decimal};

verus! {

/// An IPv4 address, octets in network order (`a.b.c.d`).
#[derive(Clone, Copy, Debug, PartialEq, Eq, Structural)]
pub struct Ipv4 {
    pub a: u8,
    pub b: u8,
    pub c: u8,
    pub d: u8,
}

/// A host address: IPv4, or IPv6 as its 128-bit number.
#[derive(Clone, Copy, Debug, PartialEq, Eq, Structural)]
pub enum HostAddr {
    V4(Ipv4),
    V6(u128),
}

/// The dotted-decimal text of an IPv4 address: each octet in shortest
/// decimal, separated by dots.
pub open spec fn ipv4_text(ip: Ipv4) -> Seq<char> {
    decimal(ip.a as nat) + seq!['.'] + decimal(ip.b as nat) + seq!['.'] + decimal(ip.c as nat)
        + seq!['.'] + decimal(ip.d as nat)
}

/// The address that `s` writes in dotted-decimal notation. Exactly the texts
/// of the form [`ipv4_text`] are accepted: four octets, each with no leading
/// zero and at most 255, separated by single dots, nothing else.
pub open spec fn spec_parse_ipv4(s: Seq<char>) -> Option<Ipv4> {
    if exists|ip: Ipv4| ipv4_text(ip) == s {
        Some(choose|ip: Ipv4| ipv4_text(ip) == s)
    } else {
        None
    }
}

/// `s` holds the shortest decimal writing of `v` at `pos`, not followed by
/// another digit.
pub open spec fn octet_at(s: Seq<char>, pos: int, v: u8) -> bool {
    let t = decimal(v as nat);
    &&& 0 <= pos
    &&& pos + t.len() <= s.len()
    &&& s.subrange(pos, pos + t.len()) == t
    &&& (pos + t.len() == s.len() || !is_digit(s[pos + t.len()]))
}

/// At most one octet can stand at a given position.
proof fn lemma_octet_unique(s: Seq<char>, pos: int, v1: u8, v2: u8)
    requires
        octet_at(s, pos, v1),
        octet_at(s, pos, v2),
    ensures
        v1 == v2,
{
    lemma_decimal(v1 as nat);
    lemma_decimal(v2 as nat);
    let t1 = decimal(v1 as nat);
    let t2 = decimal(v2 as nat);
    if t1.len() < t2.len() {
        assert(s[pos + t1.len()] == t2[t1.len() as int]);
        assert(is_digit(t2[t1.len() as int]));
    } else if t2.len() < t1.len() {
        assert(s[pos + t2.len()] == t1[t2.len() as int]);
        assert(is_digit(t1[t2.len() as int]));
    } else {
        assert(t1 == t2);
    }
}

/// A maximal run of digits (or four digits) at `pos` where an octet stands is
/// exactly that octet's writing.
proof fn lemma_octet_from_run(s: Seq<char>, pos: int, k: int, v: u8)
    requires
        0 <= pos,
        0 <= k <= 4,
        pos + k <= s.len(),
        all_digits(s.subrange(pos, pos + k)),
        k == 4 || pos + k == s.len() || !is_digit(s[pos + k]),
        octet_at(s, pos, v),
    ensures
        k == decimal(v as nat).len(),
        s.subrange(pos, pos + k) == decimal(v as nat),
{
    lemma_decimal(v as nat);
    let t = decimal(v as nat);
    let r = s.subrange(pos, pos + k);
    if k < t.len() {
        assert(s[pos + k] == t[k]);
        assert(is_digit(t[k]));
    } else if k > t.len() {
        assert(s[pos + t.len()] == r[t.len() as int]);
        assert(is_digit(r[t.len() as int]));
    }
}

/// Reads the octet at `pos`: a maximal run of one to three digits with no
/// leading zero and value at most 255.
fn parse_octet(s: &str, len: usize, pos: usize) -> (res: Option<(u8, usize)>)
    requires
        len == s@.len(),
        pos <= len,
    ensures
        match res {
            Some((v, e)) => e == pos + decimal(v as nat).len() && octet_at(s@, pos as int, v),
            None => forall|v: u8| !octet_at(s@, pos as int, v),
        },
{
    let mut k: usize = 0;
    let mut val: u32 = 0;
    let mut stop = false;
    while !stop && pos + k < len && k < 4
        invariant
            pos <= len,
            len == s@.len(),
            k <= 4,
            pos + k <= len,
            all_digits(s@.subrange(pos as int, pos + k)),
            val == digits_value(s@.subrange(pos as int, pos + k)),
            val < 10000,
            k == 0 ==> val == 0,
            k == 1 ==> val < 10,
            k == 2 ==> val < 100,
            k == 3 ==> val < 1000,
            stop ==> pos + k < len && !is_digit(s@[pos + k]),
        decreases 4 - k + (if stop { 0int } else { 1 }),
    {
        let c = s.get_char(pos + k);
        if !char_is_digit(c) {
            stop = true;
        } else {
            let ghost r = s@.subrange(pos as int, pos + k);
            let ghost r1 = s@.subrange(pos as int, pos + k + 1);
            assert(r1.drop_last() =~= r);
            assert(r1.last() == c);
            assert(all_digits(r1)) by {
                assert forall|j: int| 0 <= j < r1.len() implies is_digit(#[trigger] r1[j]) by {
                    if j < k {
                        assert(r1[j] == r[j]);
                    }
                }
            }
            val = val * 10 + (c as u32 - 48);
            k = k + 1;
        }
    }
    let ghost r = s@.subrange(pos as int, pos + k);
    proof {
        assert forall|v: u8| octet_at(s@, pos as int, v) implies decimal(v as nat).len() == k
            && r == decimal(v as nat) by {
            lemma_octet_from_run(s@, pos as int, k as int, v);
        }
    }
    if k == 0 || k == 4 {
        proof {
            assert forall|v: u8| !octet_at(s@, pos as int, v) by {
                if octet_at(s@, pos as int, v) {
                    lemma_decimal(v as nat);
                }
            }
        }
        return None;
    }
    if k > 1 && s.get_char(pos) == '0' {
        proof {
            assert(r[0] == '0');
            assert forall|v: u8| !octet_at(s@, pos as int, v) by {
                if octet_at(s@, pos as int, v) {
                    lemma_decimal(v as nat);
                }
            }
        }
        return None;
    }
    if val > 255 {
        proof {
            assert forall|v: u8| !octet_at(s@, pos as int, v) by {
                if octet_at(s@, pos as int, v) {
                    lemma_decimal(v as nat);
                }
            }
        }
        return None;
    }
    let v = val as u8;
    proof {
        if k > 1 {
            assert(r[0] == s@[pos as int]);
        }
        lemma_decimal_of_digits(r);
        assert(decimal(v as nat) == r);
    }
    Some((v, pos + k))
}


/// Where the octets and dots of an address's dotted-decimal text stand.
proof fn lemma_ipv4_text_layout(ip: Ipv4)
    ensures
        ({
            let s = ipv4_text(ip);
            let la = decimal(ip.a as nat).len() as int;
            let lb = decimal(ip.b as nat).len() as int;
            let lc = decimal(ip.c as nat).len() as int;
            let ld = decimal(ip.d as nat).len() as int;
            let p1 = la + 1;
            let p2 = p1 + lb + 1;
            let p3 = p2 + lc + 1;
            &&& octet_at(s, 0, ip.a)
            &&& s[la] == '.'
            &&& octet_at(s, p1, ip.b)
            &&& s[p1 + lb] == '.'
            &&& octet_at(s, p2, ip.c)
            &&& s[p2 + lc] == '.'
            &&& octet_at(s, p3, ip.d)
            &&& s.len() == p3 + ld
        }),
{
    let s = ipv4_text(ip);
    let da = decimal(ip.a as nat);
    let db = decimal(ip.b as nat);
    let dc = decimal(ip.c as nat);
    let dd = decimal(ip.d as nat);
    lemma_decimal(ip.a as nat);
    lemma_decimal(ip.b as nat);
    lemma_decimal(ip.c as nat);
    lemma_decimal(ip.d as nat);
    let la = da.len() as int;
    let lb = db.len() as int;
    let lc = dc.len() as int;
    let ld = dd.len() as int;
    let p1 = la + 1;
    let p2 = p1 + lb + 1;
    let p3 = p2 + lc + 1;
    assert(s.len() == p3 + ld);
    assert(s.subrange(0, la) =~= da);
    assert(s[la] == '.');
    assert(s.subrange(p1, p1 + lb) =~= db);
    assert(s[p1 + lb] == '.');
    assert(s.subrange(p2, p2 + lc) =~= dc);
    assert(s[p2 + lc] == '.');
    assert(s.subrange(p3, p3 + ld) =~= dd);
}

/// Different addresses have different dotted-decimal texts.
proof fn lemma_ipv4_text_injective(x: Ipv4, y: Ipv4)
    requires
        ipv4_text(x) == ipv4_text(y),
    ensures
        x == y,
{
    let s = ipv4_text(x);
    lemma_ipv4_text_layout(x);
    lemma_ipv4_text_layout(y);
    lemma_octet_unique(s, 0, x.a, y.a);
    let p1: int = decimal(x.a as nat).len() + 1int;
    lemma_octet_unique(s, p1, x.b, y.b);
    let p2: int = p1 + decimal(x.b as nat).len() + 1;
    lemma_octet_unique(s, p2, x.c, y.c);
    let p3: int = p2 + decimal(x.c as nat).len() + 1;
    lemma_octet_unique(s, p3, x.d, y.d);
}

/// The dotted-decimal text of an address reads back as that address.
pub proof fn lemma_ipv4_text_parses_back(ip: Ipv4)
    ensures
        spec_parse_ipv4(ipv4_text(ip)) == Some(ip),
{
    let s = ipv4_text(ip);
    assert(exists|x: Ipv4| ipv4_text(x) == s);
    let w = choose|x: Ipv4| ipv4_text(x) == s;
    lemma_ipv4_text_injective(w, ip);
}

/// Parses an IPv4 address in dotted-decimal notation, as the standard
/// library's `Ipv4Addr` parser does.
pub fn parse_ipv4(s: &str) -> (res: Option<Ipv4>)
    ensures
        res == spec_parse_ipv4(s@),
{
    let len = s.unicode_len();
    let ghost ok = exists|x: Ipv4| ipv4_text(x) == s@;
    let ghost w = choose|x: Ipv4| ipv4_text(x) == s@;
    proof {
        if ok {
            lemma_ipv4_text_layout(w);
        }
    }
    let (a, e1) = match parse_octet(s, len, 0) {
        Some(x) => x,
        None => {
            return None;
        },
    };
    proof {
        if ok {
            lemma_octet_unique(s@, 0, a, w.a);
        }
    }
    if e1 >= len || s.get_char(e1) != '.' {
        return None;
    }
    let (b, e2) = match parse_octet(s, len, e1 + 1) {
        Some(x) => x,
        None => {
            return None;
        },
    };
    proof {
        if ok {
            lemma_octet_unique(s@, e1 + 1int, b, w.b);
        }
    }
    if e2 >= len || s.get_char(e2) != '.' {
        return None;
    }
    let (c, e3) = match parse_octet(s, len, e2 + 1) {
        Some(x) => x,
        None => {
            return None;
        },
    };
    proof {
        if ok {
            lemma_octet_unique(s@, e2 + 1int, c, w.c);
        }
    }
    if e3 >= len || s.get_char(e3) != '.' {
        return None;
    }
    let (d, e4) = match parse_octet(s, len, e3 + 1) {
        Some(x) => x,
        None => {
            return None;
        },
    };
    proof {
        if ok {
            lemma_octet_unique(s@, e3 + 1int, d, w.d);
        }
    }
    if e4 != len {
        return None;
    }
    let ip = Ipv4 { a, b, c, d };
    proof {
        assert(s@ =~= s@.subrange(0, e1 as int) + seq!['.'] + s@.subrange(e1 + 1, e2 as int)
            + seq!['.'] + s@.subrange(e2 + 1, e3 as int) + seq!['.'] + s@.subrange(
            e3 + 1,
            e4 as int,
        ));
        assert(ipv4_text(ip) =~= s@);
        lemma_ipv4_text_parses_back(ip);
    }
    Some(ip)
}

/// The dotted-decimal text of an IPv4 address (its `Display`).
pub fn ipv4_to_string(ip: Ipv4) -> (s: String)
    ensures
        s@ == ipv4_text(ip),
{
    let mut s = String::new();
    push_decimal(&mut s, ip.a as u64);
    push_char(&mut s, '.');
    push_decimal(&mut s, ip.b as u64);
    push_char(&mut s, '.');
    push_decimal(&mut s, ip.c as u64);
    push_char(&mut s, '.');
    push_decimal(&mut s, ip.d as u64);
    assert(s@ =~= ipv4_text(ip));
    s
}

/// The text of a host address: dotted decimal for IPv4; for IPv6,
/// `std_v6_text`, the standard library's writing of that address.
pub open spec fn host_text(addr: HostAddr, std_v6_text: Seq<char>) -> Seq<char> {
    match addr {
        HostAddr::V4(ip) => ipv4_text(ip),
        HostAddr::V6(_) => std_v6_text,
    }
}

/// Writes a host address (see [`host_text`]).
pub fn host_to_string(addr: HostAddr, std_v6_text: &str) -> (s: String)
    ensures
        s@ == host_text(addr, std_v6_text@),
{
    match addr {
        HostAddr::V4(ip) => ipv4_to_string(ip),
        HostAddr::V6(_) => {
            let mut s = String::new();
            s.append(std_v6_text);
            s
        },
    }
}

/// The bytes uploaded to announce a host address: its text in UTF-8.
pub fn host_upload_body(addr: HostAddr, std_v6_text: &str) -> (body: Vec<u8>)
    ensures
        body@ == encode_utf8(host_text(addr, std_v6_text@)),
{
    let s = host_to_string(addr, std_v6_text);
    s.as_str().as_bytes_vec()
}

/// The host address that downloaded text names. Dotted-decimal IPv4 text is
/// read here; for any other text `std_v6` is the outcome, the IPv6 address
/// that the standard library's `IpAddr` parser finds in the text, if any.
pub open spec fn spec_host_from_text(t: Seq<char>, std_v6: Option<u128>) -> Option<HostAddr> {
    match spec_parse_ipv4(t) {
        Some(ip) => Some(HostAddr::V4(ip)),
        None => match std_v6 {
            Some(bits) => Some(HostAddr::V6(bits)),
            None => None,
        },
    }
}

/// Reads a host address from downloaded text (see [`spec_host_from_text`]).
pub fn parse_host_address(text: &str, std_v6: Option<u128>) -> (res: Option<HostAddr>)
    ensures
        res == spec_host_from_text(text@, std_v6),
{
    match parse_ipv4(text) {
        Some(ip) => Some(HostAddr::V4(ip)),
        None => match std_v6 {
            Some(bits) => Some(HostAddr::V6(bits)),
            None => None,
        },
    }
}

/// Decodes UTF-8 bytes into a string: `String::from_utf8`, which its
/// documentation says succeeds exactly when the bytes are valid UTF-8,
/// giving the string they encode. The error is dropped.
#[verifier::external_body]
fn string_from_utf8(bytes: Vec<u8>) -> (res: Option<String>)
    ensures
        res is Some <==> valid_utf8(bytes@),
        res matches Some(s) ==> s@ == decode_utf8(bytes@),
{
    String::from_utf8(bytes).ok()
}

/// Why the machine's public address could not be read.
#[derive(Clone, Copy, Debug, PartialEq, Eq, Structural)]
pub enum ClientAddressError {
    /// The address query command did not succeed.
    CommandFailed,
    /// Its output is not UTF-8.
    NotUtf8,
    /// Its output is not a dotted-decimal IPv4 address.
    NotAnAddress,
}

/// What the public-address query yields, from whether the command succeeded,
/// the bytes it printed, and the standard library's IPv6 reading of those
/// bytes as text (`std_v6`, see [`spec_host_from_text`]).
pub open spec fn spec_client_address(success: bool, stdout: Seq<u8>, std_v6: Option<u128>) -> Result<
    HostAddr,
    ClientAddressError,
> {
    if !success {
        Err(ClientAddressError::CommandFailed)
    } else if !valid_utf8(stdout) {
        Err(ClientAddressError::NotUtf8)
    } else {
        match spec_host_from_text(decode_utf8(stdout), std_v6) {
            Some(addr) => Ok(addr),
            None => Err(ClientAddressError::NotAnAddress),
        }
    }
}

/// Reads the machine's public address, IPv4 or IPv6, from the address
/// query's outcome.
pub fn client_address_from_output(success: bool, stdout: Vec<u8>, std_v6: Option<u128>) -> (res:
    Result<HostAddr, ClientAddressError>)
    ensures
        res == spec_client_address(success, stdout@, std_v6),
{
    if !success {
        return Err(ClientAddressError::CommandFailed);
    }
    let text = match string_from_utf8(stdout) {
        Some(t) => t,
        None => {
            return Err(ClientAddressError::NotUtf8);
        },
    };
    match parse_host_address(text.as_str(), std_v6) {
        Some(addr) => Ok(addr),
        None => Err(ClientAddressError::NotAnAddress),
    }
}

/// What is uploaded for an IPv4 address is read back as that address when
/// downloaded, whatever the IPv6 reading of the text would be.
pub proof fn lemma_upload_reads_back(ip: Ipv4, std_v6: Option<u128>)
    ensures
        valid_utf8(encode_utf8(host_text(HostAddr::V4(ip), Seq::empty()))),
        spec_host_from_text(
            decode_utf8(encode_utf8(host_text(HostAddr::V4(ip), Seq::empty()))),
            std_v6,
        ) == Some(HostAddr::V4(ip)),
{
    encode_utf8_valid_utf8(ipv4_text(ip));
    encode_utf8_decode_utf8(ipv4_text(ip));
    lemma_ipv4_text_parses_back(ip);
}

/// Dotted-decimal text holds only digits and dots.
proof fn lemma_ipv4_text_chars(ip: Ipv4, i: int)
    requires
        0 <= i < ipv4_text(ip).len(),
    ensures
        is_digit(ipv4_text(ip)[i]) || ipv4_text(ip)[i] == '.',
{
    lemma_ipv4_text_layout(ip);
    lemma_decimal(ip.a as nat);
    lemma_decimal(ip.b as nat);
    lemma_decimal(ip.c as nat);
    lemma_decimal(ip.d as nat);
    let da = decimal(ip.a as nat);
    let db = decimal(ip.b as nat);
    let dc = decimal(ip.c as nat);
    let dd = decimal(ip.d as nat);
    let s = ipv4_text(ip);
    let p1 = da.len() + 1;
    let p2 = p1 + db.len() + 1;
    let p3 = p2 + dc.len() + 1;
    if i < da.len() {
        assert(s[i] == da[i]);
    } else if p1 <= i < p1 + db.len() {
        assert(s[i] == db[i - p1]);
    } else if p2 <= i < p2 + dc.len() {
        assert(s[i] == dc[i - p2]);
    } else if p3 <= i {
        assert(s[i] == dd[i - p3]);
    }
}

/// What is uploaded for an IPv6 address, written as the standard library
/// writes it (with a colon, as every IPv6 text has), is read back as that
/// address when the standard library reads the text back as it.
pub proof fn lemma_upload_reads_back_v6(bits: u128, std_v6_text: Seq<char>)
    requires
        std_v6_text.contains(':'),
    ensures
        valid_utf8(encode_utf8(host_text(HostAddr::V6(bits), std_v6_text))),
        spec_host_from_text(
            decode_utf8(encode_utf8(host_text(HostAddr::V6(bits), std_v6_text))),
            Some(bits),
        ) == Some(HostAddr::V6(bits)),
{
    let t = std_v6_text;
    encode_utf8_valid_utf8(t);
    encode_utf8_decode_utf8(t);
    if exists|x: Ipv4| ipv4_text(x) == t {
        let x = choose|x: Ipv4| ipv4_text(x) == t;
        let k = choose|k: int| 0 <= k < t.len() && t[k] == ':';
        lemma_ipv4_text_chars(x, k);
    }
}

} // verus!
