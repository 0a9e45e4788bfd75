//! Extracting a machine fingerprint from network-tool output.
//!
//! The host runs the platform's address-listing command and hands its raw
//! output here: the fingerprint is the first output line (Windows `getmac`)
//! or the second whitespace-separated token (`ifconfig <if> ether`), with
//! `unknown` standing in when the output yields neither.  Scanning is at
//! the byte level and treats only ASCII whitespace as such.

use vstd::prelude::*;

verus! {

/// ASCII whitespace: space, tab, line feed, vertical tab, form feed,
/// carriage return.
pub open spec fn is_ascii_ws(b: u8) -> bool {
    b == 32 || b == 9 || b == 10 || b == 11 || b == 12 || b == 13
}

/// The first position at or after `i` whose byte satisfies `p`, or the
/// length when none does.
pub open spec fn seek(s: Seq<u8>, i: int, p: spec_fn(u8) -> bool) -> int
    decreases s.len() - i,
    when 0 <= i <= s.len()
{
    if i >= s.len() {
        s.len() as int
    } else if p(s[i]) {
        i
    } else {
        seek(s, i + 1, p)
    }
}

/// The first newline at or after `i`, or the length.
pub open spec fn newline_from(s: Seq<u8>, i: int) -> int {
    seek(s, i, |b: u8| b == 10)
}

/// The first non-whitespace position at or after `i`, or the length.
pub open spec fn skip_ws_from(s: Seq<u8>, i: int) -> int {
    seek(s, i, |b: u8| !is_ascii_ws(b))
}

/// The first whitespace position at or after `i`, or the length.
pub open spec fn token_end_from(s: Seq<u8>, i: int) -> int {
    seek(s, i, |b: u8| is_ascii_ws(b))
}

/// The stand-in fingerprint when the output yields none: `unknown`.
pub open spec fn unknown_bytes() -> Seq<u8> {
    seq![117u8, 110u8, 107u8, 110u8, 111u8, 119u8, 110u8]
}

/// A first line without its trailing carriage return, if it has one.
pub open spec fn strip_trailing_cr(s: Seq<u8>) -> Seq<u8> {
    if s.len() > 0 && s[s.len() - 1] == 13 {
        s.drop_last()
    } else {
        s
    }
}

/// The fingerprint read from `getmac` output: its first line, or `unknown`
/// when the output is empty.
pub open spec fn getmac_fingerprint_of(s: Seq<u8>) -> Seq<u8> {
    if s.len() == 0 {
        unknown_bytes()
    } else {
        strip_trailing_cr(s.take(newline_from(s, 0)))
    }
}

/// The fingerprint read from `ifconfig <interface> ether` output: its
/// second whitespace-separated token (the address after the `ether`
/// label), or `unknown` when there is none.
pub open spec fn ifconfig_fingerprint_of(s: Seq<u8>) -> Seq<u8> {
    let first_start = skip_ws_from(s, 0);
    let first_end = token_end_from(s, first_start);
    let second_start = skip_ws_from(s, first_end);
    let second_end = token_end_from(s, second_start);
    if second_start >= s.len() {
        unknown_bytes()
    } else {
        s.subrange(second_start, second_end)
    }
}

fn is_ws(b: u8) -> (r: bool)
    ensures
        r == is_ascii_ws(b),
{
    b == 32 || b == 9 || b == 10 || b == 11 || b == 12 || b == 13
}

fn unknown_vec() -> (r: Vec<u8>)
    ensures
        r@ == unknown_bytes(),
{
    let mut v: Vec<u8> = Vec::new();
    v.push(117);
    v.push(110);
    v.push(107);
    v.push(110);
    v.push(111);
    v.push(119);
    v.push(110);
    proof {
        assert(v@ =~= unknown_bytes());
    }
    v
}

fn copy_range(s: &[u8], a: usize, b: usize) -> (r: Vec<u8>)
    requires
        a <= b <= s@.len(),
    ensures
        r@ == s@.subrange(a as int, b as int),
{
    let mut r: Vec<u8> = Vec::new();
    let mut i: usize = a;
    while i < b
        invariant
            a <= i <= b <= s@.len(),
            r@ =~= s@.subrange(a as int, i as int),
        decreases b - i,
    {
        r.push(s[i]);
        proof {
            assert(s@.subrange(a as int, i + 1 as int)
                =~= s@.subrange(a as int, i as int).push(s@[i as int]));
        }
        i += 1;
    }
    r
}

fn find_newline(s: &[u8]) -> (r: usize)
    ensures
        r as int == newline_from(s@, 0),
        r <= s@.len(),
{
    let mut i: usize = 0;
    while i < s.len()
        invariant
            i <= s@.len(),
            newline_from(s@, 0) == newline_from(s@, i as int),
        decreases s@.len() - i,
    {
        if s[i] == 10 {
            return i;
        }
        proof {
            assert(newline_from(s@, i as int) == newline_from(s@, i + 1 as int));
        }
        i += 1;
    }
    i
}

fn skip_ws(s: &[u8], from: usize) -> (r: usize)
    requires
        from <= s@.len(),
    ensures
        r as int == skip_ws_from(s@, from as int),
        from <= r <= s@.len(),
{
    let mut i: usize = from;
    while i < s.len()
        invariant
            from <= i <= s@.len(),
            skip_ws_from(s@, from as int) == skip_ws_from(s@, i as int),
        decreases s@.len() - i,
    {
        if !is_ws(s[i]) {
            return i;
        }
        proof {
            assert(skip_ws_from(s@, i as int) == skip_ws_from(s@, i + 1 as int));
        }
        i += 1;
    }
    i
}

fn token_end(s: &[u8], from: usize) -> (r: usize)
    requires
        from <= s@.len(),
    ensures
        r as int == token_end_from(s@, from as int),
        from <= r <= s@.len(),
{
    let mut i: usize = from;
    while i < s.len()
        invariant
            from <= i <= s@.len(),
            token_end_from(s@, from as int) == token_end_from(s@, i as int),
        decreases s@.len() - i,
    {
        if is_ws(s[i]) {
            return i;
        }
        proof {
            assert(token_end_from(s@, i as int) == token_end_from(s@, i + 1 as int));
        }
        i += 1;
    }
    i
}

/// The fingerprint carried by `getmac` output, `unknown` bytes when the
/// output is empty.
pub fn fingerprint_from_getmac(out: &[u8]) -> (r: Vec<u8>)
    ensures
        r@ == getmac_fingerprint_of(out@),
{
    if out.len() == 0 {
        return unknown_vec();
    }
    let end = find_newline(out);
    if end > 0 && out[end - 1] == 13 {
        proof {
            assert(out@.take(end as int)[end - 1] == out@[end - 1]);
            assert(strip_trailing_cr(out@.take(end as int))
                =~= out@.subrange(0, end - 1));
        }
        copy_range(out, 0, end - 1)
    } else {
        proof {
            if end > 0 {
                assert(out@.take(end as int)[end - 1] == out@[end - 1]);
            }
            assert(strip_trailing_cr(out@.take(end as int)) =~= out@.subrange(0, end as int));
        }
        copy_range(out, 0, end)
    }
}

/// The fingerprint carried by `ifconfig` output, `unknown` bytes when a
/// second token is missing.
pub fn fingerprint_from_ifconfig(out: &[u8]) -> (r: Vec<u8>)
    ensures
        r@ == ifconfig_fingerprint_of(out@),
{
    let first_start = skip_ws(out, 0);
    let first_end = token_end(out, first_start);
    let second_start = skip_ws(out, first_end);
    let second_end = token_end(out, second_start);
    if second_start >= out.len() {
        unknown_vec()
    } else {
        copy_range(out, second_start, second_end)
    }
}

} // verus!
