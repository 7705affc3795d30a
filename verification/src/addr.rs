//! Resolution of user-supplied bind strings into socket addresses.
//!
//! The grammar is stated once, as spec functions over the characters of the
//! input, and the executable parser returns exactly what those functions
//! denote. A string that already carries a port (a single `:` for IPv4, or
//! a bracketed IPv6 followed by `:`) is taken as a complete address; any
//! other string must be a bare IPv4 or IPv6 address and receives the
//! configured default port. Malformed strings are rejected, never guessed:
//! in particular a string with several colons and no brackets parses only
//! if it is itself a valid IPv6 address.

use vstd::prelude::*;
use vstd::string::StrSliceExecFns;

use crate::errors::ConfigError;
use crate::scan::count_char;
use crate::scan::find_char;
use crate::scan::is_digit;
use crate::scan::is_radix_digit;
use crate::scan::lemma_count_char_none;
use crate::scan::lemma_count_char_split;
use crate::scan::lemma_find_char;
use crate::scan::parse_num_exec;
use crate::scan::parse_num_spec;

verus! {

/// The port a bind string receives when it does not name one itself.
pub const DEFAULT_PORT: u16 = 11313;

/// A parsed IP address: four octets, or eight 16-bit groups.
#[derive(Clone, Copy, Debug, PartialEq, Eq, Structural)]
pub enum IpAddress {
    V4 { a: u8, b: u8, c: u8, d: u8 },
    V6 { s0: u16, s1: u16, s2: u16, s3: u16, s4: u16, s5: u16, s6: u16, s7: u16 },
}

/// The address family of a bind target.
#[derive(Clone, Copy, Debug, PartialEq, Eq, Structural)]
pub enum AddrFamily {
    V4,
    V6,
}

impl IpAddress {
    /// The family an address belongs to.
    pub open spec fn spec_family(self) -> AddrFamily {
        match self {
            IpAddress::V4 { .. } => AddrFamily::V4,
            IpAddress::V6 { .. } => AddrFamily::V6,
        }
    }

    /// The family an address belongs to.
    pub fn family(&self) -> (r: AddrFamily)
        ensures
            r == self.spec_family(),
    {
        match self {
            IpAddress::V4 { .. } => AddrFamily::V4,
            IpAddress::V6 { .. } => AddrFamily::V6,
        }
    }

    /// Whether this is an IPv4 address.
    pub fn is_ipv4(&self) -> (r: bool)
        ensures
            r == (self.spec_family() is V4),
    {
        matches!(self, IpAddress::V4 { .. })
    }
}

/// A validated bind target: a concrete address and port, consumed by
/// exactly one listener. Immutable once resolved.
#[derive(Clone, Copy, Debug, PartialEq, Eq, Structural)]
pub struct BindTarget {
    /// The address to bind.
    pub ip: IpAddress,
    /// The port to bind.
    pub port: u16,
}

// ------------------------------------------------------------------
// The grammar, as spec functions.
// ------------------------------------------------------------------
/// A decimal octet `0`..`255` in `[i, j)`, without leading zeros.
pub open spec fn parse_octet(s: Seq<char>, i: int, j: int) -> Option<u8> {
    match parse_num_spec(s, i, j, 10, 3, 255, false) {
        Some(n) => Some(n as u8),
        None => None,
    }
}

/// A decimal port `0`..`65535` in `[i, j)`, without leading zeros.
pub open spec fn parse_port_num(s: Seq<char>, i: int, j: int) -> Option<u16> {
    match parse_num_spec(s, i, j, 10, 5, 65535, false) {
        Some(n) => Some(n as u16),
        None => None,
    }
}

/// One IPv6 group: one to four hexadecimal digits in `[i, j)`.
pub open spec fn parse_hex_group(s: Seq<char>, i: int, j: int) -> Option<u16> {
    match parse_num_spec(s, i, j, 16, 4, 65535, true) {
        Some(n) => Some(n as u16),
        None => None,
    }
}

/// Dotted-decimal IPv4 in `[i, j)`: exactly four octets separated by `.`.
pub open spec fn parse_ipv4_range(s: Seq<char>, i: int, j: int) -> Option<IpAddress> {
    match find_char(s, i, j, '.') {
        None => None,
        Some(d1) => match find_char(s, d1 + 1, j, '.') {
            None => None,
            Some(d2) => match find_char(s, d2 + 1, j, '.') {
                None => None,
                Some(d3) => if find_char(s, d3 + 1, j, '.') is Some {
                    None
                } else {
                    match (
                        parse_octet(s, i, d1),
                        parse_octet(s, d1 + 1, d2),
                        parse_octet(s, d2 + 1, d3),
                        parse_octet(s, d3 + 1, j),
                    ) {
                        (Some(a), Some(b), Some(c), Some(d)) => Some(
                            IpAddress::V4 { a, b, c, d },
                        ),
                        _ => None,
                    }
                },
            },
        },
    }
}

/// The two 16-bit groups that an IPv4 address embedded in the tail of an
/// IPv6 address contributes.
pub open spec fn v4_groups(ip: IpAddress) -> Seq<u16> {
    match ip {
        IpAddress::V4 { a, b, c, d } => seq![
            ((a as int) * 256 + (b as int)) as u16,
            ((c as int) * 256 + (d as int)) as u16,
        ],
        IpAddress::V6 { .. } => seq![],
    }
}

/// The position of the first `::` in `[i, j)`.
pub open spec fn find_dc(s: Seq<char>, i: int, j: int) -> Option<int>
    decreases j - i,
{
    if i + 1 >= j {
        None
    } else if s[i] == ':' && s[i + 1] == ':' {
        Some(i)
    } else {
        find_dc(s, i + 1, j)
    }
}

/// What a successful or failed search for `::` means.
pub proof fn lemma_find_dc(s: Seq<char>, i: int, j: int)
    ensures
        match find_dc(s, i, j) {
            Some(d) => i <= d && d + 1 < j && s[d] == ':' && s[d + 1] == ':' && (forall|m: int|
                i <= m < d ==> !(#[trigger] s[m] == ':' && s[m + 1] == ':')),
            None => forall|m: int|
                i <= m && m + 1 < j ==> !(#[trigger] s[m] == ':' && s[m + 1] == ':'),
        },
    decreases j - i,
{
    if i + 1 >= j {
    } else if s[i] == ':' && s[i + 1] == ':' {
    } else {
        lemma_find_dc(s, i + 1, j);
    }
}

/// A non-empty run of IPv6 groups in `[i, j)` separated by single colons.
/// Only the last token may be an embedded IPv4 address, and only where
/// `v4_tail` allows it; that token contributes two groups.
pub open spec fn parse_groups_ne(s: Seq<char>, i: int, j: int, v4_tail: bool) -> Option<Seq<u16>>
    decreases j - i,
{
    match find_char(s, i, j, ':') {
        None => match parse_hex_group(s, i, j) {
            Some(g) => Some(seq![g]),
            None => if v4_tail {
                match parse_ipv4_range(s, i, j) {
                    Some(ip) => Some(v4_groups(ip)),
                    None => None,
                }
            } else {
                None
            },
        },
        Some(c) => if i <= c && c < j {
            match parse_hex_group(s, i, c) {
                None => None,
                Some(g) => match parse_groups_ne(s, c + 1, j, v4_tail) {
                    Some(rest) => Some(seq![g] + rest),
                    None => None,
                },
            }
        } else {
            None
        },
    }
}

/// `n` zero groups.
pub open spec fn zero_groups(n: nat) -> Seq<u16> {
    Seq::new(n, |k: int| 0u16)
}

/// The address made of eight groups.
pub open spec fn ipv6_from_groups(g: Seq<u16>) -> IpAddress {
    IpAddress::V6 {
        s0: g[0],
        s1: g[1],
        s2: g[2],
        s3: g[3],
        s4: g[4],
        s5: g[5],
        s6: g[6],
        s7: g[7],
    }
}

/// IPv6 in `[i, j)`: eight groups, or fewer with a single `::` standing
/// for at least one zero group, with an optional embedded IPv4 tail.
pub open spec fn parse_ipv6_range(s: Seq<char>, i: int, j: int) -> Option<IpAddress> {
    match find_dc(s, i, j) {
        None => match parse_groups_ne(s, i, j, true) {
            Some(g) => if g.len() == 8 {
                Some(ipv6_from_groups(g))
            } else {
                None
            },
            None => None,
        },
        Some(d) => if i <= d && d + 1 < j {
            let left = if d == i {
                Some(Seq::<u16>::empty())
            } else {
                parse_groups_ne(s, i, d, false)
            };
            let right = if d + 2 == j {
                Some(Seq::<u16>::empty())
            } else {
                parse_groups_ne(s, d + 2, j, true)
            };
            match (left, right) {
                (Some(l), Some(r)) => if l.len() + r.len() <= 7 {
                    Some(ipv6_from_groups(l + zero_groups((8 - l.len() - r.len()) as nat) + r))
                } else {
                    None
                },
                _ => None,
            }
        } else {
            None
        },
    }
}

/// A bare address: IPv4 first, IPv6 second; the first parse that succeeds
/// wins.
pub open spec fn parse_ip(s: Seq<char>) -> Option<IpAddress> {
    match parse_ipv4_range(s, 0, s.len() as int) {
        Some(ip) => Some(ip),
        None => parse_ipv6_range(s, 0, s.len() as int),
    }
}

/// A complete address with port: either `a.b.c.d:port`, or `[v6]:port`.
pub open spec fn parse_socket(s: Seq<char>) -> Option<(IpAddress, u16)> {
    let n = s.len() as int;
    if n > 0 && s[0] == '[' {
        match find_char(s, 1, n, ']') {
            Some(k) => if k + 1 < n && s[k + 1] == ':' {
                match (parse_ipv6_range(s, 1, k), parse_port_num(s, k + 2, n)) {
                    (Some(ip), Some(p)) => Some((ip, p)),
                    _ => None,
                }
            } else {
                None
            },
            None => None,
        }
    } else {
        match find_char(s, 0, n, ':') {
            Some(c) => match (parse_ipv4_range(s, 0, c), parse_port_num(s, c + 1, n)) {
                (Some(ip), Some(p)) => Some((ip, p)),
                _ => None,
            },
            None => None,
        }
    }
}

/// Whether `]` immediately followed by `:` occurs anywhere in `s`: the mark
/// of a bracketed IPv6 address that carries a port.
pub open spec fn has_bracket_colon(s: Seq<char>) -> bool {
    exists|k: int| 0 <= k && k + 1 < s.len() && #[trigger] s[k] == ']' && s[k + 1] == ':'
}

/// How one bind string resolves. A string with exactly one colon, or with
/// `]:`, is read as an address that already carries its port; any other
/// string must be a bare address and receives `default_port`.
#[verifier::opaque]
pub open spec fn resolve_spec(s: Seq<char>, default_port: u16) -> Result<BindTarget, ConfigError> {
    if count_char(s, 0, s.len() as int, ':') == 1 || has_bracket_colon(s) {
        match parse_socket(s) {
            Some(t) => Ok(BindTarget { ip: t.0, port: t.1 }),
            None => Err(ConfigError::InvalidAddressWithPort),
        }
    } else {
        match parse_ip(s) {
            Some(ip) => Ok(BindTarget { ip, port: default_port }),
            None => Err(ConfigError::InvalidAddress),
        }
    }
}

// ------------------------------------------------------------------
// The executable parser.
// ------------------------------------------------------------------
/// Finds the first occurrence of `c` in `[i, j)`.
fn find_char_exec(s: &str, i: usize, j: usize, c: char) -> (r: Option<usize>)
    requires
        i <= j <= s@.len(),
    ensures
        match r {
            Some(k) => i <= k < j && find_char(s@, i as int, j as int, c) == Some(k as int),
            None => find_char(s@, i as int, j as int, c) is None,
        },
{
    let mut k: usize = i;
    while k < j
        invariant
            i <= k <= j <= s@.len(),
            find_char(s@, i as int, j as int, c) == find_char(s@, k as int, j as int, c),
        decreases j - k,
    {
        if s.get_char(k) == c {
            return Some(k);
        }
        k = k + 1;
    }
    None
}

/// Finds the first `::` in `[i, j)`.
fn find_dc_exec(s: &str, i: usize, j: usize) -> (r: Option<usize>)
    requires
        i <= j <= s@.len(),
    ensures
        match r {
            Some(d) => i <= d && d + 1 < j && find_dc(s@, i as int, j as int) == Some(d as int),
            None => find_dc(s@, i as int, j as int) is None,
        },
{
    if j == i {
        return None;
    }
    let mut k: usize = i;
    while k < j - 1
        invariant
            i < j <= s@.len(),
            i <= k <= j - 1,
            find_dc(s@, i as int, j as int) == find_dc(s@, k as int, j as int),
        decreases j - k,
    {
        if s.get_char(k) == ':' && s.get_char(k + 1) == ':' {
            return Some(k);
        }
        k = k + 1;
    }
    None
}

/// Parses one decimal octet.
fn parse_octet_exec(s: &str, i: usize, j: usize) -> (r: Option<u8>)
    requires
        i <= j <= s@.len(),
    ensures
        r == parse_octet(s@, i as int, j as int),
{
    match parse_num_exec(s, i, j, false, 3, 255, false) {
        Some(v) => Some(v as u8),
        None => None,
    }
}

/// Parses one decimal port number.
fn parse_port_exec(s: &str, i: usize, j: usize) -> (r: Option<u16>)
    requires
        i <= j <= s@.len(),
    ensures
        r == parse_port_num(s@, i as int, j as int),
{
    match parse_num_exec(s, i, j, false, 5, 65535, false) {
        Some(v) => Some(v as u16),
        None => None,
    }
}

/// Parses one hexadecimal group.
fn parse_hex_group_exec(s: &str, i: usize, j: usize) -> (r: Option<u16>)
    requires
        i <= j <= s@.len(),
    ensures
        r == parse_hex_group(s@, i as int, j as int),
{
    match parse_num_exec(s, i, j, true, 4, 65535, true) {
        Some(v) => Some(v as u16),
        None => None,
    }
}

/// Parses dotted-decimal IPv4 in `[i, j)`.
fn parse_ipv4_exec(s: &str, i: usize, j: usize) -> (r: Option<IpAddress>)
    requires
        i <= j <= s@.len(),
    ensures
        r == parse_ipv4_range(s@, i as int, j as int),
{
    proof {
        lemma_find_char(s@, i as int, j as int, '.');
    }
    let d1 = match find_char_exec(s, i, j, '.') {
        Some(k) => k,
        None => {
            return None;
        },
    };
    proof {
        lemma_find_char(s@, d1 + 1 as int, j as int, '.');
    }
    let d2 = match find_char_exec(s, d1 + 1, j, '.') {
        Some(k) => k,
        None => {
            return None;
        },
    };
    proof {
        lemma_find_char(s@, d2 + 1 as int, j as int, '.');
    }
    let d3 = match find_char_exec(s, d2 + 1, j, '.') {
        Some(k) => k,
        None => {
            return None;
        },
    };
    if find_char_exec(s, d3 + 1, j, '.').is_some() {
        return None;
    }
    let oa = parse_octet_exec(s, i, d1);
    let ob = parse_octet_exec(s, d1 + 1, d2);
    let oc = parse_octet_exec(s, d2 + 1, d3);
    let od = parse_octet_exec(s, d3 + 1, j);
    match (oa, ob, oc, od) {
        (Some(a), Some(b), Some(c), Some(d)) => Some(IpAddress::V4 { a, b, c, d }),
        _ => None,
    }
}

/// The two groups of an embedded IPv4 tail.
fn v4_groups_exec(ip: &IpAddress) -> (r: Vec<u16>)
    ensures
        r@ == v4_groups(*ip),
{
    match ip {
        IpAddress::V4 { a, b, c, d } => {
            let mut v: Vec<u16> = Vec::new();
            v.push((*a as u16) * 256 + (*b as u16));
            v.push((*c as u16) * 256 + (*d as u16));
            proof {
                assert(v@ =~= v4_groups(*ip));
            }
            v
        },
        IpAddress::V6 { .. } => {
            let v: Vec<u16> = Vec::new();
            proof {
                assert(v@ =~= v4_groups(*ip));
            }
            v
        },
    }
}

/// Parses a non-empty colon-separated run of groups.
fn parse_groups_ne_exec(s: &str, i: usize, j: usize, v4_tail: bool) -> (r: Option<Vec<u16>>)
    requires
        i <= j <= s@.len(),
    ensures
        match r {
            Some(v) => parse_groups_ne(s@, i as int, j as int, v4_tail) == Some(v@),
            None => parse_groups_ne(s@, i as int, j as int, v4_tail) is None,
        },
    decreases j - i,
{
    proof {
        lemma_find_char(s@, i as int, j as int, ':');
    }
    match find_char_exec(s, i, j, ':') {
        None => {
            match parse_hex_group_exec(s, i, j) {
                Some(g) => {
                    let mut v: Vec<u16> = Vec::new();
                    v.push(g);
                    proof {
                        assert(v@ =~= seq![g]);
                    }
                    Some(v)
                },
                None => {
                    if v4_tail {
                        match parse_ipv4_exec(s, i, j) {
                            Some(ip) => Some(v4_groups_exec(&ip)),
                            None => None,
                        }
                    } else {
                        None
                    }
                },
            }
        },
        Some(c) => {
            match parse_hex_group_exec(s, i, c) {
                None => None,
                Some(g) => {
                    match parse_groups_ne_exec(s, c + 1, j, v4_tail) {
                        Some(rest) => {
                            let mut v: Vec<u16> = Vec::new();
                            v.push(g);
                            let mut tail = rest;
                            let ghost tail_view = tail@;
                            v.append(&mut tail);
                            proof {
                                assert(v@ =~= seq![g] + tail_view);
                            }
                            Some(v)
                        },
                        None => None,
                    }
                },
            }
        },
    }
}

/// Builds the address out of exactly eight groups.
fn ipv6_from_groups_exec(g: &Vec<u16>) -> (r: IpAddress)
    requires
        g@.len() == 8,
    ensures
        r == ipv6_from_groups(g@),
{
    IpAddress::V6 {
        s0: g[0],
        s1: g[1],
        s2: g[2],
        s3: g[3],
        s4: g[4],
        s5: g[5],
        s6: g[6],
        s7: g[7],
    }
}

/// Parses IPv6 in `[i, j)`.
fn parse_ipv6_exec(s: &str, i: usize, j: usize) -> (r: Option<IpAddress>)
    requires
        i <= j <= s@.len(),
    ensures
        r == parse_ipv6_range(s@, i as int, j as int),
{
    proof {
        lemma_find_dc(s@, i as int, j as int);
    }
    match find_dc_exec(s, i, j) {
        None => {
            match parse_groups_ne_exec(s, i, j, true) {
                Some(g) => {
                    if g.len() == 8 {
                        Some(ipv6_from_groups_exec(&g))
                    } else {
                        None
                    }
                },
                None => None,
            }
        },
        Some(d) => {
            let left: Option<Vec<u16>> = if d == i {
                Some(Vec::new())
            } else {
                parse_groups_ne_exec(s, i, d, false)
            };
            let right: Option<Vec<u16>> = if d + 2 == j {
                Some(Vec::new())
            } else {
                parse_groups_ne_exec(s, d + 2, j, true)
            };
            match (left, right) {
                (Some(l), Some(rt)) => {
                    if l.len() <= 7 && rt.len() <= 7 - l.len() {
                        let zeros: usize = 8 - l.len() - rt.len();
                        let mut g = l;
                        let ghost l_view = g@;
                        let mut z: usize = 0;
                        while z < zeros
                            invariant
                                z <= zeros,
                                g@ =~= l_view + zero_groups(z as nat),
                            decreases zeros - z,
                        {
                            g.push(0);
                            z = z + 1;
                        }
                        let mut tail = rt;
                        let ghost tail_view = tail@;
                        g.append(&mut tail);
                        proof {
                            assert(g@ =~= l_view + zero_groups(zeros as nat) + tail_view);
                        }
                        Some(ipv6_from_groups_exec(&g))
                    } else {
                        None
                    }
                },
                _ => None,
            }
        },
    }
}

/// Parses a bare IP address: IPv4 first, then IPv6.
pub fn parse_ip_address(s: &str) -> (r: Option<IpAddress>)
    ensures
        r == parse_ip(s@),
{
    let n = s.unicode_len();
    match parse_ipv4_exec(s, 0, n) {
        Some(ip) => Some(ip),
        None => parse_ipv6_exec(s, 0, n),
    }
}

/// Parses a complete address with embedded port.
pub fn parse_socket_address(s: &str) -> (r: Option<(IpAddress, u16)>)
    ensures
        r == parse_socket(s@),
{
    let n = s.unicode_len();
    if n > 0 && s.get_char(0) == '[' {
        proof {
            lemma_find_char(s@, 1, n as int, ']');
        }
        match find_char_exec(s, 1, n, ']') {
            Some(k) => {
                if k + 1 < n && s.get_char(k + 1) == ':' {
                    let ip = parse_ipv6_exec(s, 1, k);
                    let p = parse_port_exec(s, k + 2, n);
                    match (ip, p) {
                        (Some(ip), Some(p)) => Some((ip, p)),
                        _ => None,
                    }
                } else {
                    None
                }
            },
            None => None,
        }
    } else {
        proof {
            lemma_find_char(s@, 0, n as int, ':');
        }
        match find_char_exec(s, 0, n, ':') {
            Some(c) => {
                let ip = parse_ipv4_exec(s, 0, c);
                let p = parse_port_exec(s, c + 1, n);
                match (ip, p) {
                    (Some(ip), Some(p)) => Some((ip, p)),
                    _ => None,
                }
            },
            None => None,
        }
    }
}

/// Counts the colons of the whole string.
fn count_colons_exec(s: &str) -> (r: usize)
    ensures
        r == count_char(s@, 0, s@.len() as int, ':'),
{
    let n = s.unicode_len();
    let mut acc: usize = 0;
    let mut k: usize = 0;
    while k < n
        invariant
            k <= n == s@.len(),
            acc <= k,
            acc + count_char(s@, k as int, n as int, ':') == count_char(s@, 0, n as int, ':'),
        decreases n - k,
    {
        if s.get_char(k) == ':' {
            acc = acc + 1;
        }
        k = k + 1;
    }
    acc
}

/// Whether `]:` occurs in the string.
fn has_bracket_colon_exec(s: &str) -> (r: bool)
    ensures
        r == has_bracket_colon(s@),
{
    let n = s.unicode_len();
    if n < 2 {
        return false;
    }
    let mut k: usize = 0;
    while k + 1 < n
        invariant
            k + 1 <= n == s@.len(),
            forall|m: int| 0 <= m < k ==> !(#[trigger] s@[m] == ']' && s@[m + 1] == ':'),
        decreases n - k,
    {
        if s.get_char(k) == ']' && s.get_char(k + 1) == ':' {
            return true;
        }
        k = k + 1;
    }
    false
}

/// Resolves one bind string against a default port, exactly as
/// [`resolve_spec`] says.
pub fn resolve_addr(bind: &str, default_port: u16) -> (r: Result<BindTarget, ConfigError>)
    ensures
        r == resolve_spec(bind@, default_port),
{
    proof {
        reveal(resolve_spec);
    }
    let colons = count_colons_exec(bind);
    if colons == 1 || has_bracket_colon_exec(bind) {
        match parse_socket_address(bind) {
            Some(t) => Ok(BindTarget { ip: t.0, port: t.1 }),
            None => Err(ConfigError::InvalidAddressWithPort),
        }
    } else {
        match parse_ip_address(bind) {
            Some(ip) => Ok(BindTarget { ip, port: default_port }),
            None => Err(ConfigError::InvalidAddress),
        }
    }
}

/// Resolves one bind string with the default port of the service.
pub fn parse_addr(bind: &String) -> (r: Result<BindTarget, ConfigError>)
    ensures
        r == resolve_spec(bind@, DEFAULT_PORT),
{
    resolve_addr(bind.as_str(), DEFAULT_PORT)
}

/// Resolves a whole list of bind strings. All of them must resolve: the
/// result is the list of targets in input order, or the error of the first
/// string that fails, since a partially available server is a
/// misconfiguration rather than a degraded state.
pub fn resolve_binds(binds: &Vec<String>, default_port: u16) -> (r: Result<
    Vec<BindTarget>,
    ConfigError,
>)
    ensures
        match r {
            Ok(v) => v@.len() == binds@.len() && forall|k: int|
                0 <= k < binds@.len() ==> #[trigger] resolve_spec(binds@[k]@, default_port)
                    == Ok::<BindTarget, ConfigError>(v@[k]),
            Err(e) => exists|k: int|
                0 <= k < binds@.len() && #[trigger] resolve_spec(binds@[k]@, default_port)
                    == Err::<BindTarget, ConfigError>(e) && (forall|m: int|
                    0 <= m < k ==> #[trigger] resolve_spec(binds@[m]@, default_port) is Ok),
        },
{
    let mut out: Vec<BindTarget> = Vec::new();
    let mut k: usize = 0;
    while k < binds.len()
        invariant
            k <= binds@.len(),
            out@.len() == k,
            forall|m: int|
                0 <= m < k ==> #[trigger] resolve_spec(binds@[m]@, default_port) == Ok::<
                    BindTarget,
                    ConfigError,
                >(out@[m]),
        decreases binds@.len() - k,
    {
        match resolve_addr(binds[k].as_str(), default_port) {
            Ok(t) => {
                out.push(t);
            },
            Err(e) => {
                proof {
                    let kk: int = k as int;
                    assert(0 <= kk < binds@.len() && resolve_spec(binds@[kk]@, default_port)
                        == Err::<BindTarget, ConfigError>(e) && (forall|m: int|
                        0 <= m < kk ==> #[trigger] resolve_spec(binds@[m]@, default_port) is Ok));
                }
                return Err(e);
            },
        }
        k = k + 1;
    }
    Ok(out)
}

// ------------------------------------------------------------------
// What resolution guarantees.
// ------------------------------------------------------------------
/// Every character of a parsed IPv4 range is a decimal digit or a dot.
proof fn lemma_ipv4_chars(s: Seq<char>, i: int, j: int)
    requires
        parse_ipv4_range(s, i, j) is Some,
    ensures
        forall|k: int| i <= k < j ==> is_digit(#[trigger] s[k]) || s[k] == '.',
{
    lemma_find_char(s, i, j, '.');
    match find_char(s, i, j, '.') {
        None => {},
        Some(d1) => {
            lemma_find_char(s, d1 + 1, j, '.');
            match find_char(s, d1 + 1, j, '.') {
                None => {},
                Some(d2) => {
                    lemma_find_char(s, d2 + 1, j, '.');
                    match find_char(s, d2 + 1, j, '.') {
                        None => {},
                        Some(d3) => {
                            assert forall|k: int|
                                i <= k < j implies is_digit(#[trigger] s[k]) || s[k] == '.' by {
                                if k < d1 {
                                    assert(is_radix_digit(s[k], 10));
                                } else if k == d1 {
                                } else if k < d2 {
                                    assert(is_radix_digit(s[k], 10));
                                } else if k == d2 {
                                } else if k < d3 {
                                    assert(is_radix_digit(s[k], 10));
                                } else if k == d3 {
                                } else {
                                    assert(is_radix_digit(s[k], 10));
                                }
                            }
                        },
                    }
                },
            }
        },
    }
}

/// Every character of a parsed run of groups is a hexadecimal digit, a
/// colon, or a dot.
proof fn lemma_groups_chars(s: Seq<char>, i: int, j: int, v4_tail: bool)
    requires
        parse_groups_ne(s, i, j, v4_tail) is Some,
    ensures
        forall|k: int|
            i <= k < j ==> is_radix_digit(#[trigger] s[k], 16) || s[k] == ':' || s[k] == '.',
    decreases j - i,
{
    lemma_find_char(s, i, j, ':');
    match find_char(s, i, j, ':') {
        None => {
            if parse_hex_group(s, i, j) is Some {
                assert forall|k: int|
                    i <= k < j implies is_radix_digit(#[trigger] s[k], 16) || s[k] == ':' || s[k]
                    == '.' by {
                    assert(is_radix_digit(s[k], 16));
                }
            } else {
                lemma_ipv4_chars(s, i, j);
                assert forall|k: int|
                    i <= k < j implies is_radix_digit(#[trigger] s[k], 16) || s[k] == ':' || s[k]
                    == '.' by {
                    assert(is_digit(s[k]) || s[k] == '.');
                }
            }
        },
        Some(c) => {
            lemma_groups_chars(s, c + 1, j, v4_tail);
            assert forall|k: int|
                i <= k < j implies is_radix_digit(#[trigger] s[k], 16) || s[k] == ':' || s[k]
                == '.' by {
                if k < c {
                    assert(is_radix_digit(s[k], 16));
                } else if k == c {
                }
            }
        },
    }
}

/// A run of `n` groups stands over at least `n - 2` colons: each token
/// after the first follows one, and only an embedded IPv4 tail yields two
/// groups from one token.
proof fn lemma_groups_colons(s: Seq<char>, i: int, j: int, v4_tail: bool)
    requires
        parse_groups_ne(s, i, j, v4_tail) is Some,
    ensures
        count_char(s, i, j, ':') + 2 >= parse_groups_ne(s, i, j, v4_tail)->Some_0.len(),
    decreases j - i,
{
    lemma_find_char(s, i, j, ':');
    match find_char(s, i, j, ':') {
        None => {},
        Some(c) => {
            lemma_groups_colons(s, c + 1, j, v4_tail);
            lemma_count_char_split(s, i, c, j, ':');
        },
    }
}

/// A parsed IPv6 range holds only hexadecimal digits, colons and dots,
/// and at least two colons.
proof fn lemma_ipv6_shape(s: Seq<char>, i: int, j: int)
    requires
        parse_ipv6_range(s, i, j) is Some,
    ensures
        forall|k: int|
            i <= k < j ==> is_radix_digit(#[trigger] s[k], 16) || s[k] == ':' || s[k] == '.',
        count_char(s, i, j, ':') >= 2,
{
    lemma_find_dc(s, i, j);
    match find_dc(s, i, j) {
        None => {
            lemma_groups_chars(s, i, j, true);
            lemma_groups_colons(s, i, j, true);
        },
        Some(d) => {
            lemma_count_char_split(s, i, d, j, ':');
            lemma_count_char_split(s, d + 2, j, j, ':');
            assert(count_char(s, d, j, ':') == 1 + count_char(s, d + 1, j, ':'));
            assert(count_char(s, d + 1, j, ':') == 1 + count_char(s, d + 2, j, ':'));
            assert forall|k: int|
                i <= k < j implies is_radix_digit(#[trigger] s[k], 16) || s[k] == ':' || s[k]
                == '.' by {
                if k < d {
                    lemma_groups_chars(s, i, d, false);
                } else if k == d || k == d + 1 {
                } else {
                    lemma_groups_chars(s, d + 2, j, true);
                }
            }
        },
    }
}

/// A string that parses as a complete address with port satisfies the
/// port-detection rule: a lone colon for IPv4, or `]:` for bracketed IPv6.
proof fn lemma_socket_form(s: Seq<char>)
    requires
        parse_socket(s) is Some,
    ensures
        count_char(s, 0, s.len() as int, ':') == 1 || has_bracket_colon(s),
{
    let n = s.len() as int;
    if n > 0 && s[0] == '[' {
        lemma_find_char(s, 1, n, ']');
        match find_char(s, 1, n, ']') {
            Some(k) => {
                assert(s[k] == ']' && s[k + 1] == ':');
                assert(has_bracket_colon(s));
            },
            None => {},
        }
    } else {
        lemma_find_char(s, 0, n, ':');
        match find_char(s, 0, n, ':') {
            Some(c) => {
                lemma_ipv4_chars(s, 0, c);
                assert forall|m: int| 0 <= m < c implies s[m] != ':' by {
                    assert(is_digit(s[m]) || s[m] == '.');
                }
                lemma_count_char_none(s, 0, c, ':');
                assert forall|m: int| c + 1 <= m < n implies s[m] != ':' by {
                    assert(is_radix_digit(s[m], 10));
                }
                lemma_count_char_none(s, c + 1, n, ':');
                lemma_count_char_split(s, 0, c, n, ':');
                assert(count_char(s, c, n, ':') == 1 + count_char(s, c + 1, n, ':'));
            },
            None => {},
        }
    }
}

/// A bare address contains no `]` and never exactly one colon, so the
/// port-detection rule stays quiet on it.
proof fn lemma_bare_form(s: Seq<char>)
    requires
        parse_ip(s) is Some,
    ensures
        count_char(s, 0, s.len() as int, ':') != 1,
        !has_bracket_colon(s),
{
    let n = s.len() as int;
    if parse_ipv4_range(s, 0, n) is Some {
        lemma_ipv4_chars(s, 0, n);
        assert forall|m: int| 0 <= m < n implies s[m] != ':' by {
            assert(is_digit(s[m]) || s[m] == '.');
        }
        lemma_count_char_none(s, 0, n, ':');
        assert forall|k: int| 0 <= k && k + 1 < n implies !(#[trigger] s[k] == ']' && s[k + 1] == ':') by {
            assert(is_digit(s[k]) || s[k] == '.');
        }
    } else {
        lemma_ipv6_shape(s, 0, n);
        assert forall|k: int| 0 <= k && k + 1 < n implies !(#[trigger] s[k] == ']' && s[k + 1] == ':') by {
            assert(is_radix_digit(s[k], 16) || s[k] == ':' || s[k] == '.');
        }
    }
}

/// A valid bind string that lacks a port resolves to its own address with
/// the configured default port appended, whatever that default is, and the
/// family of the result is the family the string spelled.
pub proof fn lemma_resolve_appends_default_port(s: Seq<char>, default_port: u16)
    requires
        parse_ip(s) is Some,
    ensures
        resolve_spec(s, default_port) == Ok::<BindTarget, ConfigError>(
            BindTarget { ip: parse_ip(s)->Some_0, port: default_port },
        ),
{
    reveal(resolve_spec);
    lemma_bare_form(s);
}

/// A malformed bind string resolves to an error, never to a silently
/// defaulted address: where neither the with-port form nor a bare address
/// parses, resolution fails.
pub proof fn lemma_malformed_never_resolves(s: Seq<char>, default_port: u16)
    requires
        parse_socket(s) is None,
        parse_ip(s) is None,
    ensures
        resolve_spec(s, default_port) is Err,
{
    reveal(resolve_spec);
}

/// A bind string with an embedded port resolves to exactly that address
/// and port; the configured default port is ignored.
pub proof fn lemma_resolve_keeps_embedded_port(s: Seq<char>, default_port: u16)
    requires
        parse_socket(s) is Some,
    ensures
        resolve_spec(s, default_port) == Ok::<BindTarget, ConfigError>(
            BindTarget { ip: parse_socket(s)->Some_0.0, port: parse_socket(s)->Some_0.1 },
        ),
{
    reveal(resolve_spec);
    lemma_socket_form(s);
}

} // verus!
