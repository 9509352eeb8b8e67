//! The health prober's decision core: when a probe loop stops, what failure
//! it reports when the process dies first, and which hosts count as
//! loopback targets that must bypass any configured network proxy.
use vstd::prelude::*;
use vstd::string::*;

use crate::events::TerminatedPayload;
use crate::text::eq_ignore_case;
use crate::text::join_with;
use crate::text::opt_i32_str;
use crate::text::push_joined;
use crate::text::push_opt_i32;
use crate::text::split_char;
use crate::text::split_ranges;
use crate::text::str_eq_ignore_case;
use crate::text::str_views;
use crate::text::trim_in_range;
use crate::text::trimmed;

verus! {

/// An ASCII decimal digit, as a character.
pub open spec fn is_digit_char(c: char) -> bool {
    '0' <= c && c <= '9'
}

/// The value of a sequence of ASCII digit characters, most significant
/// first.
pub open spec fn char_digits_val(s: Seq<char>) -> int
    decreases s.len(),
{
    if s.len() == 0 {
        0
    } else {
        char_digits_val(s.drop_last()) * 10 + (s.last() as int - '0' as int)
    }
}

/// A valid dotted-quad octet: one to three digits, no leading zero, value
/// at most 255.
pub open spec fn valid_octet(s: Seq<char>) -> bool {
    1 <= s.len() <= 3 && (forall|k: int| 0 <= k < s.len() ==> is_digit_char(#[trigger] s[k])) && (
    s.len() > 1 ==> s[0] != '0') && char_digits_val(s) <= 255
}

/// A dotted-quad IPv4 address in the loopback block `127.0.0.0/8`.
pub open spec fn ipv4_loopback(s: Seq<char>) -> bool {
    split_char(s, '.').len() == 4 && (forall|i: int|
        0 <= i < 4 ==> valid_octet(#[trigger] split_char(s, '.')[i])) && char_digits_val(
        split_char(s, '.')[0],
    ) == 127
}


/// An ASCII hexadecimal digit.
pub open spec fn is_hex_digit(c: char) -> bool {
    ('0' <= c && c <= '9') || ('a' <= c && c <= 'f') || ('A' <= c && c <= 'F')
}

/// The value of one hexadecimal digit.
pub open spec fn hex_digit_val(c: char) -> int {
    if '0' <= c && c <= '9' {
        c as int - '0' as int
    } else if 'a' <= c && c <= 'f' {
        10 + (c as int - 'a' as int)
    } else {
        10 + (c as int - 'A' as int)
    }
}

/// The value of a sequence of hexadecimal digits, most significant first.
pub open spec fn hex_group_val(g: Seq<char>) -> int
    decreases g.len(),
{
    if g.len() == 0 {
        0
    } else {
        hex_group_val(g.drop_last()) * 16 + hex_digit_val(g.last())
    }
}

/// One group of an IPv6 address: one to four hexadecimal digits.
pub open spec fn valid_hex_group(g: Seq<char>) -> bool {
    1 <= g.len() <= 4 && (forall|k: int| 0 <= k < g.len() ==> is_hex_digit(#[trigger] g[k]))
}

/// A group spelling the value zero.
pub open spec fn zero_group(g: Seq<char>) -> bool {
    valid_hex_group(g) && hex_group_val(g) == 0
}

/// A group spelling the value one.
pub open spec fn one_group(g: Seq<char>) -> bool {
    valid_hex_group(g) && hex_group_val(g) == 1
}

/// An embedded dotted-quad spelling the 32-bit value one — the only
/// trailing IPv4 form the loopback address can carry.
pub open spec fn quad_is_unit(q: Seq<char>) -> bool {
    split_char(q, '.').len() == 4 && (forall|i: int|
        0 <= i < 4 ==> valid_octet(#[trigger] split_char(q, '.')[i])) && char_digits_val(
        split_char(q, '.')[0],
    ) == 0 && char_digits_val(split_char(q, '.')[1]) == 0 && char_digits_val(
        split_char(q, '.')[2],
    ) == 0 && char_digits_val(split_char(q, '.')[3]) == 1
}

/// Zero-valued groups at every index in `[from, to)`.
pub open spec fn all_zero_groups(ps: Seq<Seq<char>>, from: int, to: int) -> bool {
    forall|k: int| from <= k < to ==> zero_group(#[trigger] ps[k])
}

/// The textual spellings of the IPv6 loopback address `::1`: groups of one
/// to four hexadecimal digits separated by `':'`, at most one `'::'`
/// standing for one or more zero groups, optionally ending in an embedded
/// dotted-quad counting as two groups; eight groups in all, every one
/// zero except the final unit.
pub open spec fn ipv6_loopback_text(s: Seq<char>) -> bool {
    let ps = split_char(s, ':');
    let n = ps.len() as int;
    (n == 8 && all_zero_groups(ps, 0, 7) && one_group(ps[7])) || (n == 7 && all_zero_groups(
        ps,
        0,
        6,
    ) && quad_is_unit(ps[6])) || (n >= 3 && ps[0].len() == 0 && ps[1].len() == 0 && ((n <= 9
        && all_zero_groups(ps, 2, n - 1) && one_group(ps[n - 1])) || (n <= 8 && all_zero_groups(
        ps,
        2,
        n - 1,
    ) && quad_is_unit(ps[n - 1])))) || (exists|i: int|
        1 <= i <= n - 2 && (#[trigger] ps[i]).len() == 0 && (forall|k: int|
            0 <= k < n - 1 && k != i ==> zero_group(#[trigger] ps[k])) && ((n <= 8 && one_group(
            ps[n - 1],
        )) || (n <= 7 && quad_is_unit(ps[n - 1]))))
}

proof fn lemma_empty_piece_not_group(g: Seq<char>)
    requires
        g.len() == 0,
    ensures
        !zero_group(g),
        !one_group(g),
        !quad_is_unit(g),
{
    assert(split_char(g, '.').len() == 1);
}

fn hex_digit_of(c: char) -> (r: Option<u32>)
    ensures
        r is Some <==> is_hex_digit(c),
        r is Some ==> r.unwrap() == hex_digit_val(c),
{
    let v = c as u32;
    if c >= '0' && c <= '9' {
        Some(v - 48)
    } else if c >= 'a' && c <= 'f' {
        Some(10 + (v - 97))
    } else if c >= 'A' && c <= 'F' {
        Some(10 + (v - 65))
    } else {
        None
    }
}

fn hex_group_in(s: &str, lo: usize, hi: usize) -> (r: Option<u32>)
    requires
        lo <= hi <= s@.len(),
    ensures
        r is Some <==> valid_hex_group(s@.subrange(lo as int, hi as int)),
        r is Some ==> r.unwrap() == hex_group_val(s@.subrange(lo as int, hi as int)),
{
    let ghost t = s@.subrange(lo as int, hi as int);
    let len = hi - lo;
    if len < 1 || len > 4 {
        return None;
    }
    let mut val: u32 = 0;
    let mut k: usize = 0;
    while k < len
        invariant
            lo <= hi <= s@.len(),
            len == hi - lo,
            t == s@.subrange(lo as int, hi as int),
            0 <= k <= len <= 4,
            forall|j: int| 0 <= j < k ==> is_hex_digit(#[trigger] t[j]),
            val == hex_group_val(t.take(k as int)),
            val < 65536,
            k < 4 ==> val < 4096,
            k < 3 ==> val < 256,
            k < 2 ==> val < 16,
            k < 1 ==> val == 0,
        decreases len - k,
    {
        let c = s.get_char(lo + k);
        proof {
            assert(t[k as int] == s@[lo + k]);
        }
        let d = match hex_digit_of(c) {
            Some(d) => d,
            None => {
                return None;
            },
        };
        proof {
            assert(t.take(k + 1).drop_last() =~= t.take(k as int));
            assert(t.take(k + 1).last() == t[k as int]);
        }
        val = val * 16 + d;
        k += 1;
    }
    proof {
        assert(t.take(len as int) =~= t);
    }
    Some(val)
}

fn quad_unit_in(s: &str, lo: usize, hi: usize) -> (r: bool)
    requires
        lo <= hi <= s@.len(),
    ensures
        r == quad_is_unit(s@.subrange(lo as int, hi as int)),
{
    let piece = s.substring_char(lo, hi);
    let ghost t = s@.subrange(lo as int, hi as int);
    let parts = split_ranges(piece, '.');
    if parts.len() != 4 {
        proof {
            assert(split_char(t, '.') == split_char(piece@, '.'));
            assert(split_char(t, '.').len() != 4);
        }
        return false;
    }
    let expected: [u32; 4] = [0, 0, 0, 1];
    let mut i: usize = 0;
    while i < 4
        invariant
            lo <= hi <= s@.len(),
            t == s@.subrange(lo as int, hi as int),
            piece@ == t,
            parts@.len() == 4,
            split_char(t, '.').len() == 4,
            forall|k: int|
                0 <= k < 4 ==> ((#[trigger] parts@[k]).0 <= parts@[k].1 <= piece@.len()
                    && piece@.subrange(parts@[k].0 as int, parts@[k].1 as int) == split_char(
                    t,
                    '.',
                )[k]),
            expected@[0] == 0 && expected@[1] == 0 && expected@[2] == 0 && expected@[3] == 1,
            0 <= i <= 4,
            forall|k: int|
                0 <= k < i ==> valid_octet(#[trigger] split_char(t, '.')[k]) && char_digits_val(
                    split_char(t, '.')[k],
                ) == expected@[k],
        decreases 4 - i,
    {
        let p = parts[i];
        proof {
            assert(piece@.subrange(parts@[i as int].0 as int, parts@[i as int].1 as int)
                == split_char(t, '.')[i as int]);
        }
        let ok = match octet_in_range(piece, p.0, p.1) {
            Some(v) => v == expected[i],
            None => false,
        };
        if !ok {
            proof {
                assert(!(valid_octet(split_char(t, '.')[i as int]) && char_digits_val(
                    split_char(t, '.')[i as int],
                ) == expected@[i as int]));
                assert(i == 0 || i == 1 || i == 2 || i == 3);
                assert(!quad_is_unit(t));
            }
            return false;
        }
        i += 1;
    }
    proof {
        assert(quad_is_unit(t));
    }
    true
}


/// The facts `split_ranges` establishes for every piece, restated for the
/// `':'` split of `host`.
spec fn colon_pieces_ok(host: Seq<char>, parts: Seq<(usize, usize)>) -> bool {
    parts.len() == split_char(host, ':').len() && (forall|k: int|
        0 <= k < parts.len() ==> ((#[trigger] parts[k]).0 <= parts[k].1 <= host.len()
            && host.subrange(parts[k].0 as int, parts[k].1 as int) == split_char(host, ':')[k]))
}

/// Decides whether `host` spells the IPv6 loopback address.
fn ipv6_loopback_check(host: &str) -> (r: bool)
    ensures
        r == ipv6_loopback_text(host@),
{
    let parts = split_ranges(host, ':');
    let n = parts.len();
    let ghost ps = split_char(host@, ':');
    let mut n_empty: usize = 0;
    let mut e1: usize = 0;
    let mut e2: usize = 0;
    let mut e3: usize = 0;
    let mut k: usize = 0;
    while k < n
        invariant
            colon_pieces_ok(host@, parts@),
            ps == split_char(host@, ':'),
            n == parts@.len(),
            0 <= k <= n,
            n_empty <= 3,
            n_empty == 0 ==> (forall|j: int| 0 <= j < k ==> (#[trigger] ps[j]).len() > 0),
            n_empty == 1 ==> e1 < k && ps[e1 as int].len() == 0 && (forall|j: int|
                0 <= j < k && j != e1 ==> (#[trigger] ps[j]).len() > 0),
            n_empty == 2 ==> e1 < e2 < k && ps[e1 as int].len() == 0 && ps[e2 as int].len() == 0
                && (forall|j: int|
                0 <= j < k && j != e1 && j != e2 ==> (#[trigger] ps[j]).len() > 0),
            n_empty == 3 ==> e1 < e2 < e3 < k && ps[e1 as int].len() == 0 && ps[e2 as int].len()
                == 0 && ps[e3 as int].len() == 0,
        decreases n - k,
    {
        let p = parts[k];
        proof {
            assert(host@.subrange(parts@[k as int].0 as int, parts@[k as int].1 as int)
                == ps[k as int]);
        }
        if p.0 == p.1 {
            if n_empty == 0 {
                e1 = k;
                n_empty = 1;
            } else if n_empty == 1 {
                e2 = k;
                n_empty = 2;
            } else if n_empty == 2 {
                e3 = k;
                n_empty = 3;
            }
        }
        k += 1;
    }
    if n_empty == 0 {
        if n == 8 {
            let zeros = zero_groups_except(host, &parts, 0, 7, 8);
            let last = parts[7];
            let last_one = match hex_group_in(host, last.0, last.1) {
                Some(v) => v == 1,
                None => false,
            };
            proof {
                assert(host@.subrange(parts@[7].0 as int, parts@[7].1 as int) == ps[7]);
                if zeros && last_one {
                    assert(ipv6_loopback_text(host@));
                } else {
                    refute_without_empties(host@, ps, n as int);
                    assert(!ipv6_loopback_text(host@));
                }
            }
            zeros && last_one
        } else if n == 7 {
            let zeros = zero_groups_except(host, &parts, 0, 6, 7);
            let last = parts[6];
            let last_quad = quad_unit_in(host, last.0, last.1);
            proof {
                assert(host@.subrange(parts@[6].0 as int, parts@[6].1 as int) == ps[6]);
                if zeros && last_quad {
                    assert(ipv6_loopback_text(host@));
                } else {
                    refute_without_empties(host@, ps, n as int);
                    assert(!ipv6_loopback_text(host@));
                }
            }
            zeros && last_quad
        } else {
            proof {
                refute_without_empties(host@, ps, n as int);
                assert(!ipv6_loopback_text(host@));
            }
            false
        }
    } else if n_empty == 1 {
        if 1 <= e1 && e1 <= n - 2 && n >= 2 {
            let zeros = zero_groups_except(host, &parts, 0, n - 1, e1);
            let last = parts[n - 1];
            let last_one = match hex_group_in(host, last.0, last.1) {
                Some(v) => v == 1,
                None => false,
            };
            let last_quad = if !last_one {
                quad_unit_in(host, last.0, last.1)
            } else {
                false
            };
            let ok = zeros && ((n <= 8 && last_one) || (n <= 7 && last_quad));
            proof {
                assert(host@.subrange(parts@[n - 1].0 as int, parts@[n - 1].1 as int) == ps[n
                    - 1]);
                lemma_empty_piece_not_group(ps[e1 as int]);
                if ok {
                    assert(ipv6_loopback_text(host@));
                } else {
                    assert(!ipv6_loopback_text(host@)) by {
                        refute_one_empty(host@, ps, n as int, e1 as int);
                    }
                }
            }
            ok
        } else {
            proof {
                lemma_empty_piece_not_group(ps[e1 as int]);
                assert(!ipv6_loopback_text(host@)) by {
                    refute_one_empty(host@, ps, n as int, e1 as int);
                }
            }
            false
        }
    } else if n_empty == 2 {
        if e1 == 0 && e2 == 1 && n >= 3 {
            let zeros = zero_groups_except(host, &parts, 2, n - 1, n);
            let last = parts[n - 1];
            let last_one = match hex_group_in(host, last.0, last.1) {
                Some(v) => v == 1,
                None => false,
            };
            let last_quad = if !last_one {
                quad_unit_in(host, last.0, last.1)
            } else {
                false
            };
            let ok = zeros && ((n <= 9 && last_one) || (n <= 8 && last_quad));
            proof {
                assert(host@.subrange(parts@[n - 1].0 as int, parts@[n - 1].1 as int) == ps[n
                    - 1]);
                lemma_empty_piece_not_group(ps[0]);
                lemma_empty_piece_not_group(ps[1]);
                if ok {
                    assert(ipv6_loopback_text(host@));
                } else {
                    assert(!ipv6_loopback_text(host@)) by {
                        refute_two_empties(host@, ps, n as int, 0, 1);
                    }
                }
            }
            ok
        } else {
            proof {
                lemma_empty_piece_not_group(ps[e1 as int]);
                lemma_empty_piece_not_group(ps[e2 as int]);
                assert(!ipv6_loopback_text(host@)) by {
                    refute_two_empties(host@, ps, n as int, e1 as int, e2 as int);
                }
            }
            false
        }
    } else {
        proof {
            lemma_empty_piece_not_group(ps[e1 as int]);
            lemma_empty_piece_not_group(ps[e2 as int]);
            lemma_empty_piece_not_group(ps[e3 as int]);
            assert(!ipv6_loopback_text(host@)) by {
                refute_three_empties(host@, ps, n as int, e1 as int, e2 as int, e3 as int);
            }
        }
        false
    }
}

/// No disjunct of `ipv6_loopback_text` survives without an empty piece
/// unless the piece checks themselves succeed; rules out the two `'::'`
/// shapes outright.
proof fn refute_without_empties(host: Seq<char>, ps: Seq<Seq<char>>, n: int)
    requires
        ps == split_char(host, ':'),
        n == ps.len(),
        forall|j: int| 0 <= j < n ==> (#[trigger] ps[j]).len() > 0,
    ensures
        !(ps.len() >= 3 && ps[0].len() == 0 && ps[1].len() == 0),
        !(exists|i: int| 1 <= i <= n - 2 && (#[trigger] ps[i]).len() == 0),
{
}

/// With exactly one empty piece, every disjunct of `ipv6_loopback_text`
/// either names that piece as the `'::'` or demands a group where the
/// empty piece stands.
proof fn refute_one_empty(host: Seq<char>, ps: Seq<Seq<char>>, n: int, e: int)
    requires
        ps == split_char(host, ':'),
        n == ps.len(),
        0 <= e < n,
        ps[e].len() == 0,
        forall|j: int| 0 <= j < n && j != e ==> (#[trigger] ps[j]).len() > 0,
        !(1 <= e <= n - 2 && (forall|k: int| 0 <= k < n - 1 && k != e ==> zero_group(#[trigger] ps[k]))
            && ((n <= 8 && one_group(ps[n - 1])) || (n <= 7 && quad_is_unit(ps[n - 1])))),
    ensures
        !ipv6_loopback_text(host),
{
    lemma_empty_piece_not_group(ps[e]);
    if n == 8 && all_zero_groups(ps, 0, 7) && one_group(ps[7]) {
        assert(zero_group(ps[e]) || one_group(ps[e]));
        assert(false);
    }
    if n == 7 && all_zero_groups(ps, 0, 6) && quad_is_unit(ps[6]) {
        assert(false);
    }
    if n >= 3 && ps[0].len() == 0 && ps[1].len() == 0 {
        assert(false);
    }
    if exists|i: int| 1 <= i <= n - 2 && (#[trigger] ps[i]).len() == 0 && (forall|k: int|
        0 <= k < n - 1 && k != i ==> zero_group(#[trigger] ps[k])) && ((n <= 8 && one_group(
        ps[n - 1],
    )) || (n <= 7 && quad_is_unit(ps[n - 1]))) {
        let i = choose|i: int|
            1 <= i <= n - 2 && (#[trigger] ps[i]).len() == 0 && (forall|k: int|
                0 <= k < n - 1 && k != i ==> zero_group(#[trigger] ps[k])) && ((n <= 8
                && one_group(ps[n - 1])) || (n <= 7 && quad_is_unit(ps[n - 1])));
        assert(i == e);
        assert(false);
    }
}

/// With two empty pieces, only the leading-`'::'` shape can hold, and only
/// when the empties stand at the front.
proof fn refute_two_empties(host: Seq<char>, ps: Seq<Seq<char>>, n: int, e1: int, e2: int)
    requires
        ps == split_char(host, ':'),
        n == ps.len(),
        0 <= e1 < e2 < n,
        ps[e1].len() == 0,
        ps[e2].len() == 0,
        forall|j: int| 0 <= j < n && j != e1 && j != e2 ==> (#[trigger] ps[j]).len() > 0,
        !(e1 == 0 && e2 == 1 && n >= 3 && (forall|k: int|
            2 <= k < n - 1 ==> zero_group(#[trigger] ps[k])) && ((n <= 9 && one_group(ps[n - 1]))
            || (n <= 8 && quad_is_unit(ps[n - 1])))),
    ensures
        !ipv6_loopback_text(host),
{
    lemma_empty_piece_not_group(ps[e1]);
    lemma_empty_piece_not_group(ps[e2]);
    if n == 8 && all_zero_groups(ps, 0, 7) && one_group(ps[7]) {
        assert(zero_group(ps[e1]) || one_group(ps[e1]));
        assert(false);
    }
    if n == 7 && all_zero_groups(ps, 0, 6) && quad_is_unit(ps[6]) {
        assert(false);
    }
    if n >= 3 && ps[0].len() == 0 && ps[1].len() == 0 && ((n <= 9 && all_zero_groups(ps, 2, n - 1)
        && one_group(ps[n - 1])) || (n <= 8 && all_zero_groups(ps, 2, n - 1) && quad_is_unit(
        ps[n - 1],
    ))) {
        assert(e1 == 0 && e2 == 1);
        assert(false);
    }
    if exists|i: int| 1 <= i <= n - 2 && (#[trigger] ps[i]).len() == 0 && (forall|k: int|
        0 <= k < n - 1 && k != i ==> zero_group(#[trigger] ps[k])) && ((n <= 8 && one_group(
        ps[n - 1],
    )) || (n <= 7 && quad_is_unit(ps[n - 1]))) {
        let i = choose|i: int|
            1 <= i <= n - 2 && (#[trigger] ps[i]).len() == 0 && (forall|k: int|
                0 <= k < n - 1 && k != i ==> zero_group(#[trigger] ps[k])) && ((n <= 8
                && one_group(ps[n - 1])) || (n <= 7 && quad_is_unit(ps[n - 1])));
        if i != e1 {
            assert(e1 < n - 1 ==> zero_group(ps[e1]));
            assert(e1 == n - 1 ==> one_group(ps[n - 1]) || quad_is_unit(ps[n - 1]));
            assert(false);
        } else {
            assert(e2 < n - 1 ==> zero_group(ps[e2]));
            assert(e2 == n - 1 ==> one_group(ps[n - 1]) || quad_is_unit(ps[n - 1]));
            assert(false);
        }
    }
}

/// Three or more empty pieces fit no disjunct of `ipv6_loopback_text`.
proof fn refute_three_empties(host: Seq<char>, ps: Seq<Seq<char>>, n: int, e1: int, e2: int, e3: int)
    requires
        ps == split_char(host, ':'),
        n == ps.len(),
        0 <= e1 < e2 < e3 < n,
        ps[e1].len() == 0,
        ps[e2].len() == 0,
        ps[e3].len() == 0,
    ensures
        !ipv6_loopback_text(host),
{
    lemma_empty_piece_not_group(ps[e1]);
    lemma_empty_piece_not_group(ps[e2]);
    lemma_empty_piece_not_group(ps[e3]);
    if n == 8 && all_zero_groups(ps, 0, 7) && one_group(ps[7]) {
        assert(zero_group(ps[e1]) || one_group(ps[e1]));
        assert(false);
    }
    if n == 7 && all_zero_groups(ps, 0, 6) && quad_is_unit(ps[6]) {
        assert(false);
    }
    if n >= 3 && ps[0].len() == 0 && ps[1].len() == 0 && ((n <= 9 && all_zero_groups(ps, 2, n - 1)
        && one_group(ps[n - 1])) || (n <= 8 && all_zero_groups(ps, 2, n - 1) && quad_is_unit(
        ps[n - 1],
    ))) {
        assert(e3 >= 2);
        assert(e3 < n - 1 ==> zero_group(ps[e3]));
        assert(e3 == n - 1 ==> one_group(ps[n - 1]) || quad_is_unit(ps[n - 1]));
        assert(false);
    }
    if exists|i: int| 1 <= i <= n - 2 && (#[trigger] ps[i]).len() == 0 && (forall|k: int|
        0 <= k < n - 1 && k != i ==> zero_group(#[trigger] ps[k])) && ((n <= 8 && one_group(
        ps[n - 1],
    )) || (n <= 7 && quad_is_unit(ps[n - 1]))) {
        let i = choose|i: int|
            1 <= i <= n - 2 && (#[trigger] ps[i]).len() == 0 && (forall|k: int|
                0 <= k < n - 1 && k != i ==> zero_group(#[trigger] ps[k])) && ((n <= 8
                && one_group(ps[n - 1])) || (n <= 7 && quad_is_unit(ps[n - 1])));
        if i != e1 {
            assert(e1 < n - 1);
            assert(zero_group(ps[e1]));
            assert(false);
        } else {
            assert(e2 < n - 1);
            assert(zero_group(ps[e2]));
            assert(false);
        }
    }
}

/// Scans pieces `from..to` of the `':'` split, skipping index `skip`, and
/// reports whether every scanned piece is a zero-valued group.
fn zero_groups_except(host: &str, parts: &Vec<(usize, usize)>, from: usize, to: usize, skip: usize) -> (r: bool)
    requires
        colon_pieces_ok(host@, parts@),
        from <= to <= parts@.len(),
    ensures
        r == (forall|k: int|
            from <= k < to && k != skip ==> zero_group(#[trigger] split_char(host@, ':')[k])),
{
    let ghost ps = split_char(host@, ':');
    let mut k = from;
    while k < to
        invariant
            colon_pieces_ok(host@, parts@),
            ps == split_char(host@, ':'),
            from <= k <= to <= parts@.len(),
            forall|j: int| from <= j < k && j != skip ==> zero_group(#[trigger] ps[j]),
        decreases to - k,
    {
        if k != skip {
            let p = parts[k];
            proof {
                assert(host@.subrange(parts@[k as int].0 as int, parts@[k as int].1 as int)
                    == ps[k as int]);
            }
            let ok = match hex_group_in(host, p.0, p.1) {
                Some(v) => v == 0,
                None => false,
            };
            if !ok {
                proof {
                    assert(!zero_group(ps[k as int]));
                }
                return false;
            }
        }
        k += 1;
    }
    true
}

/// The hosts treated as loopback: the name `localhost` (in any ASCII
/// case), a dotted-quad IPv4 address in `127.0.0.0/8`, or any textual
/// spelling of the IPv6 loopback `::1`.
pub open spec fn loopback_host(s: Seq<char>) -> bool {
    eq_ignore_case(s, "localhost"@) || ipv4_loopback(s) || ipv6_loopback_text(s)
}

fn octet_in_range(s: &str, lo: usize, hi: usize) -> (r: Option<u32>)
    requires
        lo <= hi <= s@.len(),
    ensures
        r is Some <==> valid_octet(s@.subrange(lo as int, hi as int)),
        r is Some ==> r.unwrap() == char_digits_val(s@.subrange(lo as int, hi as int)),
{
    let ghost t = s@.subrange(lo as int, hi as int);
    let len = hi - lo;
    if len < 1 || len > 3 {
        return None;
    }
    let mut val: u32 = 0;
    let mut k: usize = 0;
    while k < len
        invariant
            lo <= hi <= s@.len(),
            len == hi - lo,
            t == s@.subrange(lo as int, hi as int),
            0 <= k <= len <= 3,
            forall|j: int| 0 <= j < k ==> is_digit_char(#[trigger] t[j]),
            val == char_digits_val(t.take(k as int)),
            val < 1000,
            k < 3 ==> val < 100,
            k < 2 ==> val < 10,
            k < 1 ==> val == 0,
        decreases len - k,
    {
        let c = s.get_char(lo + k);
        if !(c >= '0' && c <= '9') {
            proof {
                assert(t[k as int] == s@[lo + k]);
            }
            return None;
        }
        proof {
            assert(t.take(k + 1).drop_last() =~= t.take(k as int));
            assert(t.take(k + 1).last() == t[k as int]);
            assert(t[k as int] == s@[lo + k]);
        }
        val = val * 10 + (c as u32 - '0' as u32);
        k += 1;
    }
    proof {
        assert(t.take(len as int) =~= t);
    }
    if len > 1 && s.get_char(lo) == '0' {
        return None;
    }
    if val > 255 {
        return None;
    }
    Some(val)
}

/// Whether a URL host is a loopback target. Health requests to such hosts
/// bypass any configured network proxy, so that environment-wide proxy
/// variables cannot intercept local health traffic.
pub fn host_is_loopback(host: &str) -> (r: bool)
    ensures
        r == loopback_host(host@),
{
    let n = host.unicode_len();
    let is_localhost = crate::text::range_eq_ignore_case(host, 0, n, "localhost");
    proof {
        assert(host@.subrange(0, n as int) =~= host@);
    }
    if is_localhost {
        return true;
    }
    if ipv6_loopback_check(host) {
        return true;
    }
    let parts = split_ranges(host, '.');
    if parts.len() != 4 {
        return false;
    }
    let first = parts[0];
    proof {
        assert(host@.subrange(parts@[0].0 as int, parts@[0].1 as int) == split_char(
            host@,
            '.',
        )[0]);
    }
    let r0 = octet_in_range(host, first.0, first.1);
    let ok0 = match r0 {
        Some(v) => v == 127,
        None => false,
    };
    if !ok0 {
        proof {
            assert(!(valid_octet(split_char(host@, '.')[0]) && char_digits_val(
                split_char(host@, '.')[0],
            ) == 127));
        }
        return false;
    }
    let mut i: usize = 1;
    while i < 4
        invariant
            parts@.len() == 4,
            split_char(host@, '.').len() == 4,
            forall|k: int|
                0 <= k < 4 ==> ((#[trigger] parts@[k]).0 <= parts@[k].1 <= host@.len()
                    && host@.subrange(parts@[k].0 as int, parts@[k].1 as int) == split_char(
                    host@,
                    '.',
                )[k]),
            valid_octet(split_char(host@, '.')[0]),
            char_digits_val(split_char(host@, '.')[0]) == 127,
            !eq_ignore_case(host@, "localhost"@),
            !ipv6_loopback_text(host@),
            1 <= i <= 4,
            forall|k: int| 0 <= k < i ==> valid_octet(#[trigger] split_char(host@, '.')[k]),
        decreases 4 - i,
    {
        let p = parts[i];
        proof {
            assert(host@.subrange(parts@[i as int].0 as int, parts@[i as int].1 as int)
                == split_char(host@, '.')[i as int]);
        }
        if octet_in_range(host, p.0, p.1).is_none() {
            proof {
                assert(!valid_octet(split_char(host@, '.')[i as int]));
            }
            return false;
        }
        i += 1;
    }
    true
}

/// One observation made by the probe loop: a single health probe's result,
/// or the process's termination racing it.
#[derive(Clone, Debug)]
pub enum ProbeEvent {
    /// A health probe returned; `true` means any 2xx answer.
    ProbeResult(bool),
    /// The process terminated first; `None` means the termination channel
    /// failed without a payload.
    ProcessExited(Option<TerminatedPayload>),
}

/// What the probe loop does after one observation.
#[derive(Clone, Debug, PartialEq, Eq)]
pub enum ProbeLoopDecision {
    /// Sleep the fixed short interval and probe again.
    KeepWaiting,
    /// The server answered: the wait ends successfully.
    Ready,
    /// The process died before becoming healthy; the wait fails with this
    /// diagnostic.
    Failed(String),
}

/// The diagnostic reported when the process terminates before the server
/// becomes healthy.
pub open spec fn terminated_message(p: Option<TerminatedPayload>) -> Seq<char> {
    match p {
        Some(payload) => "Sidecar terminated before becoming healthy (code="@ + opt_i32_str(
            payload.code,
        ) + " signal="@ + opt_i32_str(payload.signal) + ")"@,
        None => "Sidecar terminated before becoming healthy"@,
    }
}

/// Decides the probe loop's next move: keep probing until a probe succeeds,
/// unless the process's termination wins the race, which fails the wait
/// with a diagnostic embedding the exit code and signal.
pub fn probe_step(ev: ProbeEvent) -> (r: ProbeLoopDecision)
    ensures
        match ev {
            ProbeEvent::ProbeResult(ok) => r == if ok {
                ProbeLoopDecision::Ready
            } else {
                ProbeLoopDecision::KeepWaiting
            },
            ProbeEvent::ProcessExited(p) => r is Failed && (r matches ProbeLoopDecision::Failed(m)
                ==> m@ == terminated_message(p)),
        },
{
    match ev {
        ProbeEvent::ProbeResult(true) => ProbeLoopDecision::Ready,
        ProbeEvent::ProbeResult(false) => ProbeLoopDecision::KeepWaiting,
        ProbeEvent::ProcessExited(p) => {
            let mut m = String::new();
            match p {
                Some(payload) => {
                    m.append("Sidecar terminated before becoming healthy (code=");
                    push_opt_i32(&mut m, payload.code);
                    m.append(" signal=");
                    push_opt_i32(&mut m, payload.signal);
                    m.append(")");
                    proof {
                        assert(m@ =~= terminated_message(p));
                    }
                },
                None => {
                    m.append("Sidecar terminated before becoming healthy");
                    proof {
                        assert(m@ =~= terminated_message(p));
                    }
                },
            }
            ProbeLoopDecision::Failed(m)
        },
    }
}

/// The entries of a comma-separated proxy-exclusion list: each piece
/// trimmed, empty pieces dropped.
pub open spec fn proxy_list_items(parts: Seq<Seq<char>>) -> Seq<Seq<char>>
    decreases parts.len(),
{
    if parts.len() == 0 {
        Seq::empty()
    } else {
        let rest = proxy_list_items(parts.drop_last());
        if trimmed(parts.last()).len() == 0 {
            rest
        } else {
            rest.push(trimmed(parts.last()))
        }
    }
}

/// Whether some entry equals `w` up to ASCII case.
pub open spec fn list_contains_ci(items: Seq<Seq<char>>, w: Seq<char>) -> bool {
    exists|j: int| 0 <= j < items.len() && eq_ignore_case(items[j], w)
}

/// The entry list with `host` appended when no entry already names it.
pub open spec fn with_loopback_host(items: Seq<Seq<char>>, host: Seq<char>) -> Seq<Seq<char>> {
    if list_contains_ci(items, host) {
        items
    } else {
        items.push(host)
    }
}

/// The merged proxy-exclusion list: the existing entries in order, then
/// each loopback host that none of them already named, joined by commas.
pub open spec fn merged_no_proxy(s: Seq<char>) -> Seq<char> {
    join_with(
        with_loopback_host(
            with_loopback_host(
                with_loopback_host(proxy_list_items(split_char(s, ',')), "127.0.0.1"@),
                "localhost"@,
            ),
            "::1"@,
        ),
        seq![','],
    )
}

fn collect_proxy_items(s: &str) -> (r: Vec<String>)
    ensures
        str_views(r@) == proxy_list_items(split_char(s@, ',')),
{
    let ranges = split_ranges(s, ',');
    let mut items: Vec<String> = Vec::new();
    proof {
        assert(split_char(s@, ',').take(0) =~= Seq::<Seq<char>>::empty());
        assert(str_views(items@) =~= proxy_list_items(split_char(s@, ',').take(0)));
    }
    let mut k: usize = 0;
    while k < ranges.len()
        invariant
            ranges@.len() == split_char(s@, ',').len(),
            forall|i: int|
                0 <= i < ranges@.len() ==> ((#[trigger] ranges@[i]).0 <= ranges@[i].1 <= s@.len()
                    && s@.subrange(ranges@[i].0 as int, ranges@[i].1 as int) == split_char(
                    s@,
                    ',',
                )[i]),
            0 <= k <= ranges@.len(),
            str_views(items@) == proxy_list_items(split_char(s@, ',').take(k as int)),
        decreases ranges@.len() - k,
    {
        let piece = ranges[k];
        let (a, b) = trim_in_range(s, piece.0, piece.1);
        proof {
            assert(split_char(s@, ',').take(k + 1).drop_last() =~= split_char(s@, ',').take(
                k as int,
            ));
            assert(split_char(s@, ',').take(k + 1).last() == split_char(s@, ',')[k as int]);
        }
        if a < b {
            let ghost before = items@;
            let w = s.substring_char(a, b).to_owned();
            items.push(w);
            proof {
                assert(str_views(items@) =~= str_views(before).push(
                    trimmed(split_char(s@, ',')[k as int]),
                ));
            }
        }
        k += 1;
    }
    proof {
        assert(split_char(s@, ',').take(ranges@.len() as int) =~= split_char(s@, ','));
    }
    items
}

fn list_has_host(items: &Vec<String>, host: &str) -> (r: bool)
    ensures
        r == list_contains_ci(str_views(items@), host@),
{
    let mut k: usize = 0;
    while k < items.len()
        invariant
            0 <= k <= items@.len(),
            forall|j: int|
                0 <= j < k ==> !eq_ignore_case(#[trigger] str_views(items@)[j], host@),
        decreases items@.len() - k,
    {
        let hit = str_eq_ignore_case(items[k].as_str(), host);
        proof {
            assert(str_views(items@)[k as int] == items@[k as int]@);
        }
        if hit {
            return true;
        }
        k += 1;
    }
    false
}

/// Merges the loopback hosts into a comma-separated proxy-exclusion list,
/// so that proxy settings taken from the environment can never intercept
/// local health traffic: existing entries are kept in order, and each
/// loopback host not already present (up to ASCII case) is appended.
pub fn merge_no_proxy(s: &str) -> (r: String)
    ensures
        r@ == merged_no_proxy(s@),
{
    let mut items = collect_proxy_items(s);
    let hosts: [&str; 3] = ["127.0.0.1", "localhost", "::1"];
    let mut h: usize = 0;
    let ghost base = str_views(items@);
    while h < 3
        invariant
            str_views(items@) == if h == 0 {
                base
            } else if h == 1 {
                with_loopback_host(base, "127.0.0.1"@)
            } else if h == 2 {
                with_loopback_host(with_loopback_host(base, "127.0.0.1"@), "localhost"@)
            } else {
                with_loopback_host(
                    with_loopback_host(with_loopback_host(base, "127.0.0.1"@), "localhost"@),
                    "::1"@,
                )
            },
            hosts@[0]@ == "127.0.0.1"@ && hosts@[1]@ == "localhost"@ && hosts@[2]@ == "::1"@,
            0 <= h <= 3,
        decreases 3 - h,
    {
        let host = hosts[h];
        if !list_has_host(&items, host) {
            let ghost before = items@;
            items.push(host.to_owned());
            proof {
                assert(str_views(items@) =~= str_views(before).push(host@));
            }
        }
        h += 1;
    }
    let mut out = String::new();
    push_joined(&mut out, &items, ",");
    proof {
        reveal_strlit(",");
        assert(","@ =~= seq![',']);
        assert(out@ =~= merged_no_proxy(s@));
    }
    out
}

} // verus!
