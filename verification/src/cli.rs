//! The command line of the proxy tool: choosing the subcommand and reading
//! the port pairs of the proxy server.

use vstd::prelude::*;
use vstd::string::*;
use crate::text::{
    decimal, is_digit, lemma_decimal, lemma_parse_unsigned_decimal, parse_unsigned,
    spec_parse_unsigned, str_equals,
};

verus! {

/// The subcommands of the proxy tool.
#[derive(Clone, Copy, Debug, PartialEq, Eq, Structural)]
pub enum Subcommand {
    LocalClientAddress,
    TestToken,
    UploadHostAddress,
    DownloadHostAddress,
    RunServer,
    MaintainHostAddressObject,
    Help,
}

/// The subcommand named `name`, if any.
pub open spec fn subcommand_named(name: Seq<char>) -> Option<Subcommand> {
    if name == "local_client_address"@ {
        Some(Subcommand::LocalClientAddress)
    } else if name == "test_token"@ {
        Some(Subcommand::TestToken)
    } else if name == "upload_host_address"@ {
        Some(Subcommand::UploadHostAddress)
    } else if name == "download_host_address"@ {
        Some(Subcommand::DownloadHostAddress)
    } else if name == "run_server"@ {
        Some(Subcommand::RunServer)
    } else if name == "maintain_host_address_object"@ {
        Some(Subcommand::MaintainHostAddressObject)
    } else if name == "help"@ {
        Some(Subcommand::Help)
    } else {
        None
    }
}

/// Finds the subcommand named `name`.
pub fn subcommand_from_name(name: &str) -> (res: Option<Subcommand>)
    ensures
        res == subcommand_named(name@),
{
    if str_equals(name, "local_client_address") {
        Some(Subcommand::LocalClientAddress)
    } else if str_equals(name, "test_token") {
        Some(Subcommand::TestToken)
    } else if str_equals(name, "upload_host_address") {
        Some(Subcommand::UploadHostAddress)
    } else if str_equals(name, "download_host_address") {
        Some(Subcommand::DownloadHostAddress)
    } else if str_equals(name, "run_server") {
        Some(Subcommand::RunServer)
    } else if str_equals(name, "maintain_host_address_object") {
        Some(Subcommand::MaintainHostAddressObject)
    } else if str_equals(name, "help") {
        Some(Subcommand::Help)
    } else {
        None
    }
}

/// Reads the arguments that follow the program name: the first names the
/// subcommand, the rest are handed to it. `None` when there is no first
/// argument or it names no subcommand.
pub fn parse_invocation(args: &Vec<String>) -> (res: Option<(Subcommand, Vec<String>)>)
    ensures
        args.len() == 0 ==> res is None,
        args.len() > 0 ==> match subcommand_named(args@[0]@) {
            Some(c) => res matches Some((c2, tail)) && c2 == c && tail.deep_view()
                == args.deep_view().drop_first(),
            None => res is None,
        },
{
    if args.len() == 0 {
        return None;
    }
    let command = match subcommand_from_name(args[0].as_str()) {
        Some(c) => c,
        None => {
            return None;
        },
    };
    let mut tail: Vec<String> = Vec::new();
    let mut i: usize = 1;
    while i < args.len()
        invariant
            1 <= i <= args.len(),
            tail.deep_view() =~= args.deep_view().subrange(1, i as int),
        decreases args.len() - i,
    {
        let ghost before = tail.deep_view();
        tail.push(args[i].clone());
        assert(tail.deep_view() =~= before.push(args@[i as int]@));
        i = i + 1;
    }
    assert(args.deep_view().subrange(1, args.len() as int) =~= args.deep_view().drop_first());
    Some((command, tail))
}

/// The ports a proxy listens on: `internal` on the server side, `external`
/// for clients.
#[derive(Clone, Copy, Debug, PartialEq, Eq, Structural)]
pub struct PortPair {
    pub internal: u16,
    pub external: u16,
}

/// The position of the first `:` in `s`, or its length when there is none.
pub open spec fn colon_index(s: Seq<char>) -> int
    decreases s.len(),
{
    if s.len() == 0 {
        0
    } else if s[0] == ':' {
        0
    } else {
        1 + colon_index(s.drop_first())
    }
}

proof fn lemma_colon_index(s: Seq<char>, k: int)
    requires
        0 <= k <= s.len(),
        forall|j: int| 0 <= j < k ==> s[j] != ':',
        k == s.len() || s[k] == ':',
    ensures
        colon_index(s) == k,
    decreases k,
{
    if k > 0 {
        lemma_colon_index(s.drop_first(), k - 1);
    }
}

/// The port pair that `s` writes: a port number (both sides) or
/// `internal:external`, each side a `u16` in decimal with an optional `+`.
pub open spec fn spec_parse_port_pair(s: Seq<char>) -> Option<PortPair> {
    let k = colon_index(s);
    if k == s.len() {
        match spec_parse_unsigned(s, 65535) {
            Ok(p) => Some(PortPair { internal: p as u16, external: p as u16 }),
            Err(_) => None,
        }
    } else {
        match (spec_parse_unsigned(s.take(k), 65535), spec_parse_unsigned(s.skip(k + 1), 65535)) {
            (Ok(i), Ok(e)) => Some(PortPair { internal: i as u16, external: e as u16 }),
            _ => None,
        }
    }
}

impl PortPair {
    /// Parses a port pair (see [`spec_parse_port_pair`]).
    pub fn parse(s: &str) -> (res: Option<PortPair>)
        ensures
            res == spec_parse_port_pair(s@),
    {
        let len = s.unicode_len();
        let mut k: usize = 0;
        let mut found = false;
        while k < len && !found
            invariant
                k <= len,
                len == s@.len(),
                forall|j: int| 0 <= j < k ==> s@[j] != ':',
                found ==> k < len && s@[k as int] == ':',
            decreases len - k + (if found { 0int } else { 1 }),
        {
            if s.get_char(k) == ':' {
                found = true;
            } else {
                k = k + 1;
            }
        }
        proof {
            lemma_colon_index(s@, k as int);
        }
        if !found {
            match parse_unsigned(s, 65535) {
                Ok(p) => Some(PortPair { internal: p as u16, external: p as u16 }),
                Err(_) => None,
            }
        } else {
            let left = s.substring_char(0, k);
            let right = s.substring_char(k + 1, len);
            assert(left@ =~= s@.take(k as int));
            assert(right@ =~= s@.skip(k + 1));
            match (parse_unsigned(left, 65535), parse_unsigned(right, 65535)) {
                (Ok(i), Ok(e)) => Some(PortPair { internal: i as u16, external: e as u16 }),
                _ => None,
            }
        }
    }
}

/// Why the proxy server's arguments were refused.
#[derive(Clone, Copy, Debug, PartialEq, Eq, Structural)]
pub enum ServerArgsError {
    /// No port pair was given.
    NoPorts,
    /// An argument is not a port pair.
    BadPortPair,
}

/// Every argument is a port pair.
pub open spec fn all_port_pairs(args: Seq<Seq<char>>) -> bool {
    forall|i: int| 0 <= i < args.len() ==> spec_parse_port_pair(#[trigger] args[i]) is Some
}

/// Reads the proxy server's arguments: one or more port pairs.
pub fn parse_port_pairs(args: &Vec<String>) -> (res: Result<Vec<PortPair>, ServerArgsError>)
    ensures
        args.len() == 0 ==> res == Err::<Vec<PortPair>, ServerArgsError>(ServerArgsError::NoPorts),
        args.len() > 0 && !all_port_pairs(args.deep_view()) ==> res == Err::<
            Vec<PortPair>,
            ServerArgsError,
        >(ServerArgsError::BadPortPair),
        args.len() > 0 && all_port_pairs(args.deep_view()) ==> ({
            &&& res matches Ok(pairs)
            &&& pairs.len() == args.len()
            &&& forall|i: int|
                0 <= i < args.len() ==> Some(#[trigger] pairs@[i]) == spec_parse_port_pair(
                    args@[i]@,
                )
        }),
{
    if args.len() == 0 {
        return Err(ServerArgsError::NoPorts);
    }
    let mut pairs: Vec<PortPair> = Vec::new();
    let mut i: usize = 0;
    while i < args.len()
        invariant
            i <= args.len(),
            pairs.len() == i,
            forall|j: int| 0 <= j < i ==> Some(#[trigger] pairs@[j]) == spec_parse_port_pair(args@[j]@),
        decreases args.len() - i,
    {
        match PortPair::parse(args[i].as_str()) {
            Some(p) => {
                pairs.push(p);
            },
            None => {
                assert(args.deep_view()[i as int] == args@[i as int]@);
                return Err(ServerArgsError::BadPortPair);
            },
        }
        i = i + 1;
    }
    assert forall|j: int| 0 <= j < args.len() implies spec_parse_port_pair(
        #[trigger] args.deep_view()[j],
    ) is Some by {
        assert(args.deep_view()[j] == args@[j]@);
        assert(Some(pairs@[j]) == spec_parse_port_pair(args@[j]@));
    }
    Ok(pairs)
}


/// A port written alone is both the internal and the external port.
pub proof fn lemma_port_pair_single(p: u16)
    ensures
        spec_parse_port_pair(decimal(p as nat)) == Some(PortPair { internal: p, external: p }),
{
    let t = decimal(p as nat);
    lemma_decimal(p as nat);
    assert forall|j: int| 0 <= j < t.len() implies t[j] != ':' by {
        assert(is_digit(t[j]));
    }
    lemma_colon_index(t, t.len() as int);
    lemma_parse_unsigned_decimal(p as nat, 65535);
}

/// In `INTERNAL:EXTERNAL`, the port left of the colon is the internal one and
/// the port right of it the external one, whatever their order.
pub proof fn lemma_port_pair_sides(i: u16, e: u16)
    ensures
        spec_parse_port_pair(decimal(i as nat) + seq![':'] + decimal(e as nat)) == Some(
            PortPair { internal: i, external: e },
        ),
{
    let l = decimal(i as nat);
    let r = decimal(e as nat);
    let s = l + seq![':'] + r;
    lemma_decimal(i as nat);
    lemma_decimal(e as nat);
    assert forall|j: int| 0 <= j < l.len() implies s[j] != ':' by {
        assert(s[j] == l[j]);
        assert(is_digit(l[j]));
    }
    assert(s[l.len() as int] == ':');
    lemma_colon_index(s, l.len() as int);
    assert(s.take(l.len() as int) =~= l);
    assert(s.skip(l.len() + 1int) =~= r);
    lemma_parse_unsigned_decimal(i as nat, 65535);
    lemma_parse_unsigned_decimal(e as nat, 65535);
}

} // verus!
