//! Canonical text form of an IP address: dotted decimal for a version-4
//! address; lowercase colon-hex for a version-6 address, with the leftmost
//! longest run of two or more zero groups compressed to `::`.

use vstd::prelude::*;
use vstd::string::{StrSliceExecFns, StringExecFns};
use crate::addr::IpAddress;

verus! {

/// The digit character for a value below sixteen.
pub open spec fn hex_char(d: int) -> char {
    if d == 0 { '0' }
    else if d == 1 { '1' }
    else if d == 2 { '2' }
    else if d == 3 { '3' }
    else if d == 4 { '4' }
    else if d == 5 { '5' }
    else if d == 6 { '6' }
    else if d == 7 { '7' }
    else if d == 8 { '8' }
    else if d == 9 { '9' }
    else if d == 10 { 'a' }
    else if d == 11 { 'b' }
    else if d == 12 { 'c' }
    else if d == 13 { 'd' }
    else if d == 14 { 'e' }
    else { 'f' }
}

/// Decimal digits of one octet, no leading zeros (a lone zero stays "0").
pub open spec fn dec_octet_str(n: int) -> Seq<char> {
    if n < 10 {
        seq![hex_char(n)]
    } else if n < 100 {
        seq![hex_char(n / 10), hex_char(n % 10)]
    } else {
        seq![hex_char(n / 100), hex_char((n / 10) % 10), hex_char(n % 10)]
    }
}

/// Lowercase hex digits of one 16-bit group, no leading zeros.
pub open spec fn hex_group_str(n: int) -> Seq<char> {
    if n < 16 {
        seq![hex_char(n)]
    } else if n < 256 {
        seq![hex_char(n / 16), hex_char(n % 16)]
    } else if n < 4096 {
        seq![hex_char(n / 256), hex_char((n / 16) % 16), hex_char(n % 16)]
    } else {
        seq![hex_char(n / 4096), hex_char((n / 256) % 16), hex_char((n / 16) % 16), hex_char(n % 16)]
    }
}

/// Dotted-decimal form of a version-4 address.
pub open spec fn ipv4_str(a: int, b: int, c: int, d: int) -> Seq<char> {
    dec_octet_str(a) + seq!['.'] + dec_octet_str(b) + seq!['.'] + dec_octet_str(c) + seq!['.']
        + dec_octet_str(d)
}

/// Length of the run of zero groups starting at `i`.
pub open spec fn run_len_at(s: Seq<u16>, i: int) -> int
    decreases s.len() - i,
{
    if i < 0 || i >= s.len() || s[i] != 0 {
        0
    } else {
        1 + run_len_at(s, i + 1)
    }
}

/// Start of the leftmost longest run of zero groups at or after `i`
/// (ties go to the left; `s.len()` when no group at or after `i` is zero).
pub open spec fn best_run_start(s: Seq<u16>, i: int) -> int
    decreases s.len() - i,
{
    if i >= s.len() {
        i
    } else {
        let rest = best_run_start(s, i + 1);
        if run_len_at(s, i) >= run_len_at(s, rest) {
            i
        } else {
            rest
        }
    }
}

/// Hex forms of the groups `s[i .. j]`, joined by `:`.
pub open spec fn groups_str(s: Seq<u16>, i: int, j: int) -> Seq<char>
    decreases j - i,
{
    if i >= j {
        Seq::empty()
    } else if i + 1 == j {
        hex_group_str(s[i] as int)
    } else {
        hex_group_str(s[i] as int) + seq![':'] + groups_str(s, i + 1, j)
    }
}

/// Canonical colon-hex form of a version-6 address: the leftmost longest
/// run of two or more zero groups is written `::`; a single zero group is
/// not compressed.
pub open spec fn ipv6_str(s: Seq<u16>) -> Seq<char> {
    let b = best_run_start(s, 0);
    let e = run_len_at(s, b);
    if e < 2 {
        groups_str(s, 0, s.len() as int)
    } else {
        groups_str(s, 0, b) + seq![':', ':'] + groups_str(s, b + e, s.len() as int)
    }
}

/// The canonical string form of an address.
pub open spec fn ip_text_spec(ip: IpAddress) -> Seq<char> {
    match ip {
        IpAddress::V4(a, b, c, d) => ipv4_str(a as int, b as int, c as int, d as int),
        IpAddress::V6(g) => ipv6_str(g@),
    }
}

/// The one-character string for a value below sixteen.
fn hex_digit(d: u8) -> (r: &'static str)
    requires
        d < 16,
    ensures
        r@.len() == 1,
        r@[0] == hex_char(d as int),
{
    proof {
        reveal_strlit("0");
        reveal_strlit("1");
        reveal_strlit("2");
        reveal_strlit("3");
        reveal_strlit("4");
        reveal_strlit("5");
        reveal_strlit("6");
        reveal_strlit("7");
        reveal_strlit("8");
        reveal_strlit("9");
        reveal_strlit("a");
        reveal_strlit("b");
        reveal_strlit("c");
        reveal_strlit("d");
        reveal_strlit("e");
        reveal_strlit("f");
    }
    match d {
        0 => "0",
        1 => "1",
        2 => "2",
        3 => "3",
        4 => "4",
        5 => "5",
        6 => "6",
        7 => "7",
        8 => "8",
        9 => "9",
        10 => "a",
        11 => "b",
        12 => "c",
        13 => "d",
        14 => "e",
        _ => "f",
    }
}

/// Append the decimal form of one octet.
fn push_dec_octet(s: &mut String, n: u8)
    ensures
        final(s)@ == old(s)@ + dec_octet_str(n as int),
{
    if n < 10 {
        s.append(hex_digit(n));
    } else if n < 100 {
        s.append(hex_digit(n / 10));
        s.append(hex_digit(n % 10));
    } else {
        s.append(hex_digit(n / 100));
        s.append(hex_digit((n / 10) % 10));
        s.append(hex_digit(n % 10));
    }
    proof {
        assert(s@ =~= old(s)@ + dec_octet_str(n as int));
    }
}

/// Append the hex form of one 16-bit group.
fn push_hex_group(s: &mut String, n: u16)
    ensures
        final(s)@ == old(s)@ + hex_group_str(n as int),
{
    if n < 16 {
        s.append(hex_digit(n as u8));
    } else if n < 256 {
        s.append(hex_digit((n / 16) as u8));
        s.append(hex_digit((n % 16) as u8));
    } else if n < 4096 {
        s.append(hex_digit((n / 256) as u8));
        s.append(hex_digit(((n / 16) % 16) as u8));
        s.append(hex_digit((n % 16) as u8));
    } else {
        s.append(hex_digit((n / 4096) as u8));
        s.append(hex_digit(((n / 256) % 16) as u8));
        s.append(hex_digit(((n / 16) % 16) as u8));
        s.append(hex_digit((n % 16) as u8));
    }
    proof {
        assert(s@ =~= old(s)@ + hex_group_str(n as int));
    }
}

/// Append the groups `g[i .. j]`, joined by `:`.
fn push_groups(s: &mut String, g: &[u16; 8], i: usize, j: usize)
    requires
        i <= j <= 8,
    ensures
        final(s)@ == old(s)@ + groups_str(g@, i as int, j as int),
    decreases j - i,
{
    if i < j {
        push_hex_group(s, g[i]);
        if i + 1 < j {
            s.append(":");
            proof {
                reveal_strlit(":");
            }
            push_groups(s, g, i + 1, j);
        }
    }
    proof {
        assert(s@ =~= old(s)@ + groups_str(g@, i as int, j as int));
    }
}

/// The canonical string form of an address.
pub fn ip_text(ip: &IpAddress) -> (r: String)
    ensures
        r@ == ip_text_spec(*ip),
{
    match *ip {
        IpAddress::V4(a, b, c, d) => {
            let mut s = String::new();
            push_dec_octet(&mut s, a);
            s.append(".");
            push_dec_octet(&mut s, b);
            s.append(".");
            push_dec_octet(&mut s, c);
            s.append(".");
            push_dec_octet(&mut s, d);
            proof {
                reveal_strlit(".");
                assert(s@ =~= ipv4_str(a as int, b as int, c as int, d as int));
            }
            s
        },
        IpAddress::V6(g) => {
            let mut i: usize = 8;
            let mut run: usize = 0;
            let mut best: usize = 8;
            let mut best_len: usize = 0;
            while i > 0
                invariant
                    i <= 8,
                    g@.len() == 8,
                    run == run_len_at(g@, i as int),
                    run <= 8 - i,
                    best == best_run_start(g@, i as int),
                    best <= 8,
                    best_len == run_len_at(g@, best as int),
                    best_len <= 8 - best,
                decreases i,
            {
                i = i - 1;
                if g[i] == 0 {
                    run = run + 1;
                } else {
                    run = 0;
                }
                if run >= best_len {
                    best = i;
                    best_len = run;
                }
            }
            let mut s = String::new();
            if best_len < 2 {
                push_groups(&mut s, &g, 0, 8);
            } else {
                push_groups(&mut s, &g, 0, best);
                s.append(":");
                s.append(":");
                push_groups(&mut s, &g, best + best_len, 8);
            }
            proof {
                reveal_strlit(":");
                assert(s@ =~= ipv6_str(g@));
            }
            s
        },
    }
}

} // verus!
