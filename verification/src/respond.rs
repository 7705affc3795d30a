//! The request handler shared by every listener: each dispatched
//! connection counts once on the shared counter, and the response body is
//! the textual form of the peer's IP address — no port, no whitespace —
//! whatever the request's method or path. A connection whose peer address
//! cannot be read is answered with the literal body `error`, as a local,
//! isolated failure.
//!
//! IPv4 renders as dotted decimal. IPv6 renders as lowercase hexadecimal
//! groups separated by colons, with the leftmost longest run of two or
//! more zero groups compressed to `::`, and an IPv4-mapped address
//! rendered as `::ffff:` followed by the dotted-decimal tail.

use vstd::prelude::*;
use vstd::string::StringExecFns;

use crate::addr::IpAddress;
use crate::counter::RequestCounter;

verus! {

/// The character of one decimal digit.
pub open spec fn digit_char(d: nat) -> char {
    if d == 0 {
        '0'
    } else if d == 1 {
        '1'
    } else if d == 2 {
        '2'
    } else if d == 3 {
        '3'
    } else if d == 4 {
        '4'
    } else if d == 5 {
        '5'
    } else if d == 6 {
        '6'
    } else if d == 7 {
        '7'
    } else if d == 8 {
        '8'
    } else if d == 9 {
        '9'
    } else if d == 10 {
        'a'
    } else if d == 11 {
        'b'
    } else if d == 12 {
        'c'
    } else if d == 13 {
        'd'
    } else if d == 14 {
        'e'
    } else {
        'f'
    }
}

/// The decimal text of `n`, most significant digit first, no leading zeros.
pub open spec fn dec_chars(n: nat) -> Seq<char>
    decreases n,
{
    if n < 10 {
        seq![digit_char(n)]
    } else {
        dec_chars(n / 10).push(digit_char(n % 10))
    }
}

/// The lowercase hexadecimal text of `n`, no leading zeros.
pub open spec fn hex_chars(n: nat) -> Seq<char>
    decreases n,
{
    if n < 16 {
        seq![digit_char(n)]
    } else {
        hex_chars(n / 16).push(digit_char(n % 16))
    }
}

/// The dotted-decimal text of four octets.
pub open spec fn dotted_chars(a: u8, b: u8, c: u8, d: u8) -> Seq<char> {
    dec_chars(a as nat) + seq!['.'] + dec_chars(b as nat) + seq!['.'] + dec_chars(c as nat)
        + seq!['.'] + dec_chars(d as nat)
}

/// The eight groups of an IPv6 address; empty for IPv4.
pub open spec fn v6_group_seq(ip: IpAddress) -> Seq<u16> {
    match ip {
        IpAddress::V4 { .. } => seq![],
        IpAddress::V6 { s0, s1, s2, s3, s4, s5, s6, s7 } => seq![s0, s1, s2, s3, s4, s5, s6, s7],
    }
}

/// The length of the run of zero groups starting at position `i`.
pub open spec fn run_len(g: Seq<u16>, i: int) -> int
    decreases 8 - i,
{
    if i < 0 || i >= 8 {
        0
    } else if g[i] != 0 {
        0
    } else {
        1 + run_len(g, i + 1)
    }
}

/// The leftmost longest run of zero groups at or after position `i`, as
/// `(start, length)`; `(8, 0)` where none remains.
pub open spec fn best_run_from(g: Seq<u16>, i: int) -> (int, int)
    decreases 8 - i,
{
    if i < 0 || i >= 8 {
        (8, 0)
    } else {
        let cur = run_len(g, i);
        let rest = best_run_from(g, i + 1);
        if cur >= rest.1 {
            (i, cur)
        } else {
            rest
        }
    }
}

/// A zero run never reaches past the last group.
proof fn lemma_run_len_bound(g: Seq<u16>, i: int)
    ensures
        0 <= run_len(g, i),
        0 <= i <= 8 ==> i + run_len(g, i) <= 8,
    decreases 8 - i,
{
    if 0 <= i < 8 && g[i] == 0 {
        lemma_run_len_bound(g, i + 1);
    }
}

/// The best run lies within the eight groups.
proof fn lemma_best_run_bound(g: Seq<u16>, i: int)
    ensures
        0 <= best_run_from(g, i).0,
        0 <= best_run_from(g, i).1,
        best_run_from(g, i).0 + best_run_from(g, i).1 <= 8,
    decreases 8 - i,
{
    if 0 <= i < 8 {
        lemma_run_len_bound(g, i);
        lemma_best_run_bound(g, i + 1);
    }
}

/// Whether the groups are an IPv4-mapped address: five zero groups, then
/// `ffff`, then the embedded address.
pub open spec fn is_v4_mapped(g: Seq<u16>) -> bool {
    g[0] == 0 && g[1] == 0 && g[2] == 0 && g[3] == 0 && g[4] == 0 && g[5] == 0xffff
}

/// The groups `[i, j)` in lowercase hexadecimal, joined by single colons.
pub open spec fn groups_text(g: Seq<u16>, i: int, j: int) -> Seq<char>
    decreases j - i,
{
    if i >= j {
        Seq::empty()
    } else if i + 1 == j {
        hex_chars(g[i] as nat)
    } else {
        hex_chars(g[i] as nat) + seq![':'] + groups_text(g, i + 1, j)
    }
}

/// The textual form of an address: dotted decimal for IPv4; for IPv6 the
/// groups in lowercase hexadecimal joined by colons, with the leftmost
/// longest run of two or more zero groups compressed to `::`, and an
/// IPv4-mapped address written `::ffff:` with a dotted-decimal tail.
pub open spec fn ip_chars(ip: IpAddress) -> Seq<char> {
    match ip {
        IpAddress::V4 { a, b, c, d } => dotted_chars(a, b, c, d),
        IpAddress::V6 { .. } => {
            let g = v6_group_seq(ip);
            if is_v4_mapped(g) {
                seq![':', ':', 'f', 'f', 'f', 'f', ':'] + dotted_chars(
                    (g[6] / 256) as u8,
                    (g[6] % 256) as u8,
                    (g[7] / 256) as u8,
                    (g[7] % 256) as u8,
                )
            } else {
                let br = best_run_from(g, 0);
                if br.1 >= 2 {
                    groups_text(g, 0, br.0) + seq![':', ':'] + groups_text(g, br.0 + br.1, 8)
                } else {
                    groups_text(g, 0, 8)
                }
            }
        },
    }
}

/// The body of the response for a connection: the peer's address in text,
/// or `error` where the peer address could not be read.
pub open spec fn response_chars(peer: Option<IpAddress>) -> Seq<char> {
    match peer {
        Some(ip) => ip_chars(ip),
        None => seq!['e', 'r', 'r', 'o', 'r'],
    }
}

/// The one-character string of a digit value.
fn digit_str(d: u8) -> (r: &'static str)
    requires
        d < 16,
    ensures
        r@ == seq![digit_char(d as nat)],
        r@.len() == 1,
{
    proof {
        reveal_strlit("0");
        reveal_strlit("1");
        reveal_strlit("2");
        reveal_strlit("3");
        reveal_strlit("4");
        reveal_strlit("5");
        reveal_strlit("6");
        reveal_strlit("7");
        reveal_strlit("8");
        reveal_strlit("9");
        reveal_strlit("a");
        reveal_strlit("b");
        reveal_strlit("c");
        reveal_strlit("d");
        reveal_strlit("e");
        reveal_strlit("f");
    }
    match d {
        0 => "0",
        1 => "1",
        2 => "2",
        3 => "3",
        4 => "4",
        5 => "5",
        6 => "6",
        7 => "7",
        8 => "8",
        9 => "9",
        10 => "a",
        11 => "b",
        12 => "c",
        13 => "d",
        14 => "e",
        _ => "f",
    }
}

/// Appends the decimal text of one octet.
fn push_dec_u8(out: &mut String, n: u8)
    ensures
        final(out)@ == old(out)@ + dec_chars(n as nat),
{
    if n >= 100 {
        out.append(digit_str(n / 10 / 10));
        out.append(digit_str((n / 10) % 10));
        out.append(digit_str(n % 10));
        proof {
            assert(dec_chars((n / 10 / 10) as nat) =~= seq![digit_char((n / 10 / 10) as nat)]);
            assert(dec_chars((n / 10) as nat) =~= dec_chars((n / 10 / 10) as nat).push(
                digit_char(((n / 10) % 10) as nat),
            ));
            assert(final(out)@ =~= old(out)@ + dec_chars(n as nat));
        }
    } else if n >= 10 {
        out.append(digit_str(n / 10));
        out.append(digit_str(n % 10));
        proof {
            assert(dec_chars((n / 10) as nat) =~= seq![digit_char((n / 10) as nat)]);
            assert(final(out)@ =~= old(out)@ + dec_chars(n as nat));
        }
    } else {
        out.append(digit_str(n));
        proof {
            assert(final(out)@ =~= old(out)@ + dec_chars(n as nat));
        }
    }
}

/// Appends the lowercase hexadecimal text of one group.
fn push_hex_u16(out: &mut String, n: u16)
    ensures
        final(out)@ == old(out)@ + hex_chars(n as nat),
{
    let d0 = (n % 16) as u8;
    let d1 = ((n / 16) % 16) as u8;
    let d2 = ((n / 16 / 16) % 16) as u8;
    let d3 = ((n / 16 / 16 / 16) % 16) as u8;
    if n >= 4096 {
        out.append(digit_str(d3));
        out.append(digit_str(d2));
        out.append(digit_str(d1));
        out.append(digit_str(d0));
        proof {
            let m: nat = n as nat;
            assert(hex_chars(m / 16 / 16 / 16) =~= seq![digit_char(m / 16 / 16 / 16)]);
            assert(hex_chars(m / 16 / 16) =~= hex_chars(m / 16 / 16 / 16).push(
                digit_char((m / 16 / 16) % 16),
            ));
            assert(hex_chars(m / 16) =~= hex_chars(m / 16 / 16).push(digit_char((m / 16) % 16)));
            assert(final(out)@ =~= old(out)@ + hex_chars(m));
        }
    } else if n >= 256 {
        out.append(digit_str(d2));
        out.append(digit_str(d1));
        out.append(digit_str(d0));
        proof {
            let m: nat = n as nat;
            assert(hex_chars(m / 16 / 16) =~= seq![digit_char(m / 16 / 16)]);
            assert(hex_chars(m / 16) =~= hex_chars(m / 16 / 16).push(digit_char((m / 16) % 16)));
            assert(final(out)@ =~= old(out)@ + hex_chars(m));
        }
    } else if n >= 16 {
        out.append(digit_str(d1));
        out.append(digit_str(d0));
        proof {
            assert(hex_chars((n / 16) as nat) =~= seq![digit_char((n / 16) as nat)]);
            assert(final(out)@ =~= old(out)@ + hex_chars(n as nat));
        }
    } else {
        out.append(digit_str(d0));
        proof {
            assert(final(out)@ =~= old(out)@ + hex_chars(n as nat));
        }
    }
}

/// Appends the four dotted-decimal octets.
fn push_dotted(out: &mut String, a: u8, b: u8, c: u8, d: u8)
    ensures
        final(out)@ == old(out)@ + dotted_chars(a, b, c, d),
{
    proof {
        reveal_strlit(".");
    }
    push_dec_u8(out, a);
    out.append(".");
    push_dec_u8(out, b);
    out.append(".");
    push_dec_u8(out, c);
    out.append(".");
    push_dec_u8(out, d);
    proof {
        assert(final(out)@ =~= old(out)@ + dotted_chars(a, b, c, d));
    }
}

/// The length of the zero run starting at `i`.
fn run_len_exec(g: &Vec<u16>, i: usize) -> (r: usize)
    requires
        g@.len() == 8,
        i <= 8,
    ensures
        r == run_len(g@, i as int),
        i + r <= 8,
    decreases 8 - i,
{
    proof {
        lemma_run_len_bound(g@, i as int);
    }
    if i >= 8 {
        0
    } else if g[i] != 0 {
        0
    } else {
        1 + run_len_exec(g, i + 1)
    }
}

/// The leftmost longest zero run at or after `i`.
fn best_run_exec(g: &Vec<u16>, i: usize) -> (r: (usize, usize))
    requires
        g@.len() == 8,
        i <= 8,
    ensures
        r.0 == best_run_from(g@, i as int).0,
        r.1 == best_run_from(g@, i as int).1,
        r.0 + r.1 <= 8,
    decreases 8 - i,
{
    proof {
        lemma_best_run_bound(g@, i as int);
    }
    if i >= 8 {
        (8, 0)
    } else {
        let cur = run_len_exec(g, i);
        let rest = best_run_exec(g, i + 1);
        if cur >= rest.1 {
            (i, cur)
        } else {
            rest
        }
    }
}

/// Appends the groups `[i, j)` joined by single colons.
fn push_groups(out: &mut String, g: &Vec<u16>, i: usize, j: usize)
    requires
        j <= g@.len(),
    ensures
        final(out)@ == old(out)@ + groups_text(g@, i as int, j as int),
    decreases j - i,
{
    proof {
        reveal_strlit(":");
    }
    if i >= j {
        proof {
            assert(final(out)@ =~= old(out)@ + groups_text(g@, i as int, j as int));
        }
    } else if i + 1 == j {
        push_hex_u16(out, g[i]);
        proof {
            assert(final(out)@ =~= old(out)@ + groups_text(g@, i as int, j as int));
        }
    } else {
        push_hex_u16(out, g[i]);
        out.append(":");
        push_groups(out, g, i + 1, j);
        proof {
            assert(final(out)@ =~= old(out)@ + groups_text(g@, i as int, j as int));
        }
    }
}

/// The textual form of an address.
pub fn format_ip(ip: &IpAddress) -> (r: String)
    ensures
        r@ == ip_chars(*ip),
{
    proof {
        reveal_strlit("");
        reveal_strlit("::");
        reveal_strlit("::ffff:");
    }
    let mut out = String::from_str("");
    match ip {
        IpAddress::V4 { a, b, c, d } => {
            push_dotted(&mut out, *a, *b, *c, *d);
            proof {
                assert(out@ =~= ip_chars(*ip));
            }
        },
        IpAddress::V6 { s0, s1, s2, s3, s4, s5, s6, s7 } => {
            let mut g: Vec<u16> = Vec::new();
            g.push(*s0);
            g.push(*s1);
            g.push(*s2);
            g.push(*s3);
            g.push(*s4);
            g.push(*s5);
            g.push(*s6);
            g.push(*s7);
            proof {
                assert(g@ =~= v6_group_seq(*ip));
            }
            if g[0] == 0 && g[1] == 0 && g[2] == 0 && g[3] == 0 && g[4] == 0 && g[5] == 0xffff {
                out.append("::ffff:");
                push_dotted(
                    &mut out,
                    (g[6] / 256) as u8,
                    (g[6] % 256) as u8,
                    (g[7] / 256) as u8,
                    (g[7] % 256) as u8,
                );
                proof {
                    assert(out@ =~= ip_chars(*ip));
                }
            } else {
                let br = best_run_exec(&g, 0);
                if br.1 >= 2 {
                    push_groups(&mut out, &g, 0, br.0);
                    out.append("::");
                    push_groups(&mut out, &g, br.0 + br.1, 8);
                    proof {
                        assert(out@ =~= ip_chars(*ip));
                    }
                } else {
                    push_groups(&mut out, &g, 0, 8);
                    proof {
                        assert(out@ =~= ip_chars(*ip));
                    }
                }
            }
        },
    }
    out
}

/// Handles one dispatched connection: counts it — exactly once, before the
/// response is considered dispatched — and produces the response body for
/// the given peer address.
pub fn handle_connection(counter: &mut RequestCounter, peer: &Option<IpAddress>) -> (body: String)
    requires
        old(counter).spec_count() < u64::MAX,
    ensures
        final(counter).spec_count() == old(counter).spec_count() + 1,
        body@ == response_chars(*peer),
{
    proof {
        reveal_strlit("error");
    }
    counter.increment();
    match peer {
        Some(ip) => {
            let body = format_ip(ip);
            body
        },
        None => {
            let body = String::from_str("error");
            proof {
                assert(body@ =~= response_chars(*peer));
            }
            body
        },
    }
}

} // verus!
