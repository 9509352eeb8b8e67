//! Verified text helpers shared by the rest of the crate: ASCII
//! case-insensitive comparison, Unicode-whitespace trimming,
//! `':'`-separated token scanning, joining, and decimal formatting of
//! integers.
use vstd::prelude::*;
use vstd::string::*;

verus! {

/// The characters with the Unicode `White_Space` property, exactly the
/// set `char::is_whitespace` recognises; trimming and word splitting in
/// this crate go by it.
pub open spec fn is_unicode_space(c: char) -> bool {
    c == '\t' || c == '\n' || c == '\u{b}' || c == '\u{c}' || c == '\r' || c == ' ' || c
        == '\u{85}' || c == '\u{a0}' || c == '\u{1680}' || ('\u{2000}' <= c && c
        <= '\u{200a}') || c == '\u{2028}' || c == '\u{2029}' || c == '\u{202f}' || c
        == '\u{205f}' || c == '\u{3000}'
}

/// ASCII lowercase folding of a single character; non-ASCII characters are
/// left unchanged.
pub open spec fn ascii_lower(c: char) -> char {
    if 'A' <= c && c <= 'Z' {
        ((c as u32) + 32) as char
    } else {
        c
    }
}

/// Equality of two character sequences up to ASCII case.
pub open spec fn eq_ignore_case(a: Seq<char>, b: Seq<char>) -> bool {
    a.len() == b.len() && (forall|i: int|
        0 <= i < a.len() ==> ascii_lower(a[i]) == ascii_lower(b[i]))
}

/// The sequence with leading whitespace removed.
pub open spec fn trim_front(s: Seq<char>) -> Seq<char>
    decreases s.len(),
{
    if s.len() > 0 && is_unicode_space(s[0]) {
        trim_front(s.drop_first())
    } else {
        s
    }
}

/// The sequence with trailing whitespace removed.
pub open spec fn trim_back(s: Seq<char>) -> Seq<char>
    decreases s.len(),
{
    if s.len() > 0 && is_unicode_space(s.last()) {
        trim_back(s.drop_last())
    } else {
        s
    }
}

/// The sequence with both leading and trailing whitespace removed.
pub open spec fn trimmed(s: Seq<char>) -> Seq<char> {
    trim_back(trim_front(s))
}

proof fn lemma_trim_front_skip(s: Seq<char>, i: int)
    requires
        0 <= i <= s.len(),
        forall|k: int| 0 <= k < i ==> is_unicode_space(s[k]),
        i == s.len() || !is_unicode_space(s[i]),
    ensures
        trim_front(s) == s.skip(i),
    decreases i,
{
    if i == 0 {
        assert(s.skip(0) =~= s);
    } else {
        assert(s.drop_first() =~= s.skip(1));
        lemma_trim_front_skip(s.drop_first(), i - 1);
        assert(s.drop_first().skip(i - 1) =~= s.skip(i));
    }
}

proof fn lemma_trim_back_take(s: Seq<char>, i: int)
    requires
        0 <= i <= s.len(),
        forall|k: int| i <= k < s.len() ==> is_unicode_space(s[k]),
        i == 0 || !is_unicode_space(s[i - 1]),
    ensures
        trim_back(s) == s.take(i),
    decreases s.len() - i,
{
    if i == s.len() {
        assert(s.take(i) =~= s);
        if s.len() > 0 && is_unicode_space(s.last()) {
            assert(false);
        }
    } else {
        lemma_trim_back_take(s.drop_last(), i);
        assert(s.drop_last() =~= s.take(s.len() - 1));
        assert(s.drop_last().take(i) =~= s.take(i));
    }
}

fn is_space_char(c: char) -> (r: bool)
    ensures
        r == is_unicode_space(c),
{
    c == '\t' || c == '\n' || c == '\u{b}' || c == '\u{c}' || c == '\r' || c == ' ' || c
        == '\u{85}' || c == '\u{a0}' || c == '\u{1680}' || (c >= '\u{2000}' && c
        <= '\u{200a}') || c == '\u{2028}' || c == '\u{2029}' || c == '\u{202f}' || c
        == '\u{205f}' || c == '\u{3000}'
}

/// Exec form of `ascii_lower`, returned as a code point.
fn lower_code(c: char) -> (r: u32)
    ensures
        r == ascii_lower(c) as u32,
{
    let v = c as u32;
    if 65 <= v && v <= 90 {
        v + 32
    } else {
        v
    }
}

fn chars_eq_ignore_case(a: char, b: char) -> (r: bool)
    ensures
        r == (ascii_lower(a) == ascii_lower(b)),
{
    lower_code(a) == lower_code(b)
}

/// Narrows `[lo, hi)` in `s` to the bounds of its trimmed interior.
pub fn trim_in_range(s: &str, lo: usize, hi: usize) -> (r: (usize, usize))
    requires
        lo <= hi <= s@.len(),
    ensures
        lo <= r.0 <= r.1 <= hi,
        s@.subrange(r.0 as int, r.1 as int) == trimmed(s@.subrange(lo as int, hi as int)),
{
    let ghost sub = s@.subrange(lo as int, hi as int);
    let mut a = lo;
    while a < hi && is_space_char(s.get_char(a))
        invariant
            lo <= a <= hi <= s@.len(),
            forall|k: int| lo <= k < a ==> is_unicode_space(s@[k]),
        decreases hi - a,
    {
        a += 1;
    }
    let mut b = hi;
    while b > a && is_space_char(s.get_char(b - 1))
        invariant
            a <= b <= hi <= s@.len(),
            forall|k: int| b <= k < hi ==> is_unicode_space(s@[k]),
        decreases b - a,
    {
        b -= 1;
    }
    proof {
        lemma_trim_front_skip(sub, a - lo);
        assert(sub.skip(a - lo) =~= s@.subrange(a as int, hi as int));
        lemma_trim_back_take(s@.subrange(a as int, hi as int), b - a);
        assert(s@.subrange(a as int, hi as int).take(b - a) =~= s@.subrange(
            a as int,
            b as int,
        ));
    }
    (a, b)
}

/// Compares `s[lo..hi]` with `w` up to ASCII case.
pub fn range_eq_ignore_case(s: &str, lo: usize, hi: usize, w: &str) -> (r: bool)
    requires
        lo <= hi <= s@.len(),
    ensures
        r == eq_ignore_case(s@.subrange(lo as int, hi as int), w@),
{
    let wlen = w.unicode_len();
    if hi - lo != wlen {
        return false;
    }
    let mut i: usize = 0;
    while i < wlen
        invariant
            hi - lo == wlen == w@.len(),
            lo <= hi <= s@.len(),
            0 <= i <= wlen,
            forall|k: int|
                0 <= k < i ==> ascii_lower(s@[lo + k]) == ascii_lower(w@[k]),
        decreases wlen - i,
    {
        if !chars_eq_ignore_case(s.get_char(lo + i), w.get_char(i)) {
            return false;
        }
        i += 1;
    }
    true
}

/// The result of splitting `s` at every occurrence of `sep`, keeping empty
/// pieces, exactly as `str::split` does.
pub open spec fn split_char(s: Seq<char>, sep: char) -> Seq<Seq<char>>
    decreases s.len(),
{
    if s.len() == 0 {
        seq![Seq::<char>::empty()]
    } else {
        let rest = split_char(s.drop_last(), sep);
        if s.last() == sep {
            rest.push(Seq::<char>::empty())
        } else {
            rest.update(rest.len() - 1, rest.last().push(s.last()))
        }
    }
}

/// The character sequences of a list of string slices.
pub open spec fn word_views(words: Seq<&str>) -> Seq<Seq<char>> {
    words.map_values(|w: &str| w@)
}

/// The character sequences of a list of strings.
pub open spec fn str_views(v: Seq<String>) -> Seq<Seq<char>> {
    v.map_values(|s: String| s@)
}

/// Whether `t`, once trimmed, equals one of `words` up to ASCII case.
pub open spec fn matches_any_word(t: Seq<char>, words: Seq<Seq<char>>) -> bool {
    exists|j: int| 0 <= j < words.len() && eq_ignore_case(trimmed(t), words[j])
}

/// Whether some `':'`-separated piece of `s` matches one of `words` after
/// trimming and ASCII case folding.
pub open spec fn any_split_token_matches(s: Seq<char>, words: Seq<Seq<char>>) -> bool {
    exists|i: int|
        0 <= i < split_char(s, ':').len() && matches_any_word(split_char(s, ':')[i], words)
}

/// Checks `s[lo..hi]`, trimmed, against each candidate word.
pub fn token_matches(s: &str, lo: usize, hi: usize, words: &[&str]) -> (r: bool)
    requires
        lo <= hi <= s@.len(),
    ensures
        r == matches_any_word(s@.subrange(lo as int, hi as int), word_views(words@)),
{
    let (a, b) = trim_in_range(s, lo, hi);
    let mut j: usize = 0;
    while j < words.len()
        invariant
            lo <= a <= b <= hi <= s@.len(),
            s@.subrange(a as int, b as int) == trimmed(s@.subrange(lo as int, hi as int)),
            0 <= j <= words@.len(),
            forall|k: int|
                0 <= k < j ==> !eq_ignore_case(
                    trimmed(s@.subrange(lo as int, hi as int)),
                    word_views(words@)[k],
                ),
        decreases words@.len() - j,
    {
        if range_eq_ignore_case(s, a, b, words[j]) {
            proof {
                assert(word_views(words@)[j as int] == words@[j as int]@);
            }
            return true;
        }
        proof {
            assert(word_views(words@)[j as int] == words@[j as int]@);
        }
        j += 1;
    }
    false
}

/// Scans the `':'`-separated pieces of `s` for one matching `words`.
pub fn any_token_matches(s: &str, words: &[&str]) -> (r: bool)
    ensures
        r == any_split_token_matches(s@, word_views(words@)),
{
    let n = s.unicode_len();
    let mut i: usize = 0;
    let mut start: usize = 0;
    let mut found = false;
    proof {
        assert(s@.subrange(0, 0) =~= Seq::<char>::empty());
    }
    while i < n
        invariant
            n == s@.len(),
            0 <= start <= i <= n,
            split_char(s@.subrange(0, i as int), ':').len() >= 1,
            split_char(s@.subrange(0, i as int), ':').last() == s@.subrange(
                start as int,
                i as int,
            ),
            found == (exists|k: int|
                0 <= k < split_char(s@.subrange(0, i as int), ':').len() - 1
                    && matches_any_word(
                    split_char(s@.subrange(0, i as int), ':')[k],
                    word_views(words@),
                )),
        decreases n - i,
    {
        let ghost prev = split_char(s@.subrange(0, i as int), ':');
        let ghost cur = split_char(s@.subrange(0, i + 1), ':');
        let c = s.get_char(i);
        proof {
            assert(s@.subrange(0, i + 1).drop_last() =~= s@.subrange(0, i as int));
            assert(s@.subrange(0, i + 1).last() == s@[i as int]);
        }
        if c == ':' {
            let m = token_matches(s, start, i, words);
            proof {
                assert(cur == prev.push(Seq::<char>::empty()));
                assert(cur.last() =~= s@.subrange(i + 1, i + 1));
                assert(m == matches_any_word(prev[prev.len() - 1], word_views(words@)));
                if found {
                    let k = choose|k: int|
                        0 <= k < prev.len() - 1 && matches_any_word(prev[k], word_views(words@));
                    assert(matches_any_word(cur[k], word_views(words@)));
                } else if m {
                    assert(matches_any_word(cur[prev.len() - 1], word_views(words@)));
                }
                if exists|k: int|
                    0 <= k < cur.len() - 1 && matches_any_word(cur[k], word_views(words@)) {
                    let k = choose|k: int|
                        0 <= k < cur.len() - 1 && matches_any_word(cur[k], word_views(words@));
                    if k < prev.len() - 1 {
                        assert(matches_any_word(prev[k], word_views(words@)));
                    } else {
                        assert(cur[k] == prev[prev.len() - 1]);
                    }
                }
            }
            found = found || m;
            start = i + 1;
        } else {
            proof {
                assert(cur == prev.update(prev.len() - 1, prev.last().push(s@[i as int])));
                assert(cur.last() == prev.last().push(s@[i as int]));
                assert(prev.last().push(s@[i as int]) =~= s@.subrange(start as int, i + 1));
                assert(forall|k: int| 0 <= k < cur.len() - 1 ==> cur[k] == prev[k]);
            }
        }
        i += 1;
    }
    proof {
        assert(s@.subrange(0, n as int) =~= s@);
    }
    let m = token_matches(s, start, n, words);
    proof {
        let sp = split_char(s@, ':');
        if found || m {
            assert(any_split_token_matches(s@, word_views(words@)));
        } else {
            assert(forall|k: int|
                0 <= k < sp.len() ==> !matches_any_word(sp[k], word_views(words@))) by {
                assert(sp.last() == sp[sp.len() - 1]);
            }
        }
    }
    found || m
}

/// The `[lo, hi)` bounds in `s` of each `sep`-separated piece, in order,
/// matching `split_char` exactly.
pub fn split_ranges(s: &str, sep: char) -> (r: Vec<(usize, usize)>)
    ensures
        r@.len() == split_char(s@, sep).len(),
        forall|i: int|
            0 <= i < r@.len() ==> ((#[trigger] r@[i]).0 <= r@[i].1 <= s@.len() && s@.subrange(
                r@[i].0 as int,
                r@[i].1 as int,
            ) == split_char(s@, sep)[i]),
{
    let n = s.unicode_len();
    let mut i: usize = 0;
    let mut start: usize = 0;
    let mut ranges: Vec<(usize, usize)> = Vec::new();
    proof {
        assert(s@.subrange(0, 0) =~= Seq::<char>::empty());
    }
    while i < n
        invariant
            n == s@.len(),
            0 <= start <= i <= n,
            split_char(s@.subrange(0, i as int), sep).len() >= 1,
            split_char(s@.subrange(0, i as int), sep).last() == s@.subrange(
                start as int,
                i as int,
            ),
            ranges@.len() == split_char(s@.subrange(0, i as int), sep).len() - 1,
            forall|k: int|
                0 <= k < ranges@.len() ==> ((#[trigger] ranges@[k]).0 <= ranges@[k].1 <= n
                    && s@.subrange(ranges@[k].0 as int, ranges@[k].1 as int) == split_char(
                    s@.subrange(0, i as int),
                    sep,
                )[k]),
        decreases n - i,
    {
        let ghost prev = split_char(s@.subrange(0, i as int), sep);
        let ghost cur = split_char(s@.subrange(0, i + 1), sep);
        let c = s.get_char(i);
        proof {
            assert(s@.subrange(0, i + 1).drop_last() =~= s@.subrange(0, i as int));
            assert(s@.subrange(0, i + 1).last() == s@[i as int]);
        }
        if c == sep {
            ranges.push((start, i));
            start = i + 1;
            proof {
                assert(cur == prev.push(Seq::<char>::empty()));
                assert(cur.last() =~= s@.subrange(i + 1, i + 1));
                assert(forall|k: int| 0 <= k < prev.len() ==> cur[k] == prev[k]);
            }
        } else {
            proof {
                assert(cur == prev.update(prev.len() - 1, prev.last().push(s@[i as int])));
                assert(cur.last() == prev.last().push(s@[i as int]));
                assert(prev.last().push(s@[i as int]) =~= s@.subrange(start as int, i + 1));
                assert(forall|k: int| 0 <= k < cur.len() - 1 ==> cur[k] == prev[k]);
            }
        }
        i += 1;
    }
    proof {
        assert(s@.subrange(0, n as int) =~= s@);
    }
    ranges.push((start, n));
    proof {
        let sp = split_char(s@, sep);
        assert(ranges@.last() == (start, n));
        assert(sp.last() == sp[sp.len() - 1]);
    }
    ranges
}

/// The decimal digit character for `d` in `0..=9`.
pub open spec fn dec_digit(d: int) -> char {
    (48 + d) as char
}

/// The decimal representation of a non-negative integer, most significant
/// digit first and without leading zeros (`0` is rendered as `"0"`).
pub open spec fn dec_str(n: int) -> Seq<char>
    recommends
        n >= 0,
    decreases n,
{
    if n < 10 {
        seq![dec_digit(n)]
    } else {
        dec_str(n / 10).push(dec_digit(n % 10))
    }
}

/// The decimal representation of an integer, with a leading `'-'` when
/// negative.
pub open spec fn int_str(n: int) -> Seq<char> {
    if n < 0 {
        seq!['-'] + dec_str(-n)
    } else {
        dec_str(n)
    }
}

/// Relies on `String::push`: appends exactly one character at the end.
#[verifier::external_body]
pub(crate) fn push_char(s: &mut String, c: char)
    ensures
        final(s)@ == old(s)@.push(c),
{
    s.push(c);
}

fn digit_char(d: u8) -> (c: char)
    requires
        d < 10,
    ensures
        c == dec_digit(d as int),
{
    match d {
        0 => '0',
        1 => '1',
        2 => '2',
        3 => '3',
        4 => '4',
        5 => '5',
        6 => '6',
        7 => '7',
        8 => '8',
        _ => '9',
    }
}

/// Appends the decimal representation of `n` to `out`.
pub fn push_u64_dec(out: &mut String, n: u64)
    ensures
        final(out)@ == old(out)@ + dec_str(n as int),
    decreases n,
{
    if n >= 10 {
        push_u64_dec(out, n / 10);
        push_char(out, digit_char((n % 10) as u8));
        proof {
            assert((old(out)@ + dec_str(n as int / 10)).push(dec_digit(n as int % 10)) =~= old(
                out,
            )@ + dec_str(n as int));
        }
    } else {
        push_char(out, digit_char(n as u8));
        proof {
            assert(old(out)@.push(dec_digit(n as int)) =~= old(out)@ + dec_str(n as int));
        }
    }
}

/// Appends the signed decimal representation of `n` to `out`.
pub fn push_i64_dec(out: &mut String, n: i64)
    ensures
        final(out)@ == old(out)@ + int_str(n as int),
{
    if n < 0 {
        push_char(out, '-');
        let m: u64 = (-(n as i128)) as u64;
        push_u64_dec(out, m);
        proof {
            assert(old(out)@.push('-') + dec_str(m as int) =~= old(out)@ + int_str(n as int));
        }
    } else {
        push_u64_dec(out, n as u64);
    }
}

/// How `Option<i32>` renders in diagnostic messages: `None` or `Some(v)`.
pub open spec fn opt_i32_str(o: Option<i32>) -> Seq<char> {
    match o {
        Option::None => seq!['N', 'o', 'n', 'e'],
        Option::Some(v) => seq!['S', 'o', 'm', 'e', '('] + int_str(v as int) + seq![')'],
    }
}

/// Appends the diagnostic rendering of an optional exit code or signal.
pub fn push_opt_i32(out: &mut String, o: Option<i32>)
    ensures
        final(out)@ == old(out)@ + opt_i32_str(o),
{
    match o {
        Option::None => {
            out.append("None");
            proof {
                reveal_strlit("None");
                assert(old(out)@ + "None"@ =~= old(out)@ + opt_i32_str(o));
            }
        },
        Option::Some(v) => {
            out.append("Some(");
            push_i64_dec(out, v as i64);
            push_char(out, ')');
            proof {
                reveal_strlit("Some(");
                assert("Some("@ =~= seq!['S', 'o', 'm', 'e', '(']);
                assert((old(out)@ + "Some("@ + int_str(v as int)).push(')') =~= old(out)@
                    + opt_i32_str(o));
            }
        },
    }
}

/// Character-sequence equality of two string slices.
pub fn str_eq(a: &str, b: &str) -> (r: bool)
    ensures
        r == (a@ == b@),
{
    let alen = a.unicode_len();
    if alen != b.unicode_len() {
        return false;
    }
    let mut i: usize = 0;
    while i < alen
        invariant
            alen == a@.len() == b@.len(),
            0 <= i <= alen,
            forall|k: int| 0 <= k < i ==> a@[k] == b@[k],
        decreases alen - i,
    {
        if a.get_char(i) != b.get_char(i) {
            return false;
        }
        i += 1;
    }
    proof {
        assert(a@ =~= b@);
    }
    true
}

/// Whether `s` contains the character `c`.
pub fn contains_char(s: &str, c: char) -> (r: bool)
    ensures
        r == s@.contains(c),
{
    let n = s.unicode_len();
    let mut i: usize = 0;
    while i < n
        invariant
            n == s@.len(),
            0 <= i <= n,
            forall|k: int| 0 <= k < i ==> s@[k] != c,
        decreases n - i,
    {
        if s.get_char(i) == c {
            return true;
        }
        i += 1;
    }
    false
}

/// Whether `s` starts with the character `c`.
pub fn starts_with_char(s: &str, c: char) -> (r: bool)
    ensures
        r == (s@.len() > 0 && s@[0] == c),
{
    if s.unicode_len() == 0 {
        return false;
    }
    s.get_char(0) == c
}

/// Whole-string ASCII case-insensitive comparison.
pub fn str_eq_ignore_case(a: &str, b: &str) -> (r: bool)
    ensures
        r == eq_ignore_case(a@, b@),
{
    let n = a.unicode_len();
    let r = range_eq_ignore_case(a, 0, n, b);
    proof {
        assert(a@.subrange(0, n as int) =~= a@);
    }
    r
}

/// The parts joined by `sep`, in order.
pub open spec fn join_with(parts: Seq<Seq<char>>, sep: Seq<char>) -> Seq<char>
    decreases parts.len(),
{
    if parts.len() == 0 {
        Seq::empty()
    } else if parts.len() == 1 {
        parts[0]
    } else {
        join_with(parts.drop_last(), sep) + sep + parts.last()
    }
}

/// Appends the parts to `out`, separated by `sep`.
pub fn push_joined(out: &mut String, parts: &Vec<String>, sep: &str)
    ensures
        final(out)@ == old(out)@ + join_with(str_views(parts@), sep@),
{
    let mut k: usize = 0;
    while k < parts.len()
        invariant
            0 <= k <= parts@.len(),
            out@ == old(out)@ + join_with(str_views(parts@.take(k as int)), sep@),
        decreases parts@.len() - k,
    {
        if k > 0 {
            out.append(sep);
        }
        out.append(parts[k].as_str());
        proof {
            let pv = str_views(parts@.take(k + 1));
            assert(parts@.take(k + 1).drop_last() =~= parts@.take(k as int));
            assert(pv.drop_last() =~= str_views(parts@.take(k as int)));
            assert(pv.last() == parts@[k as int]@);
            assert(out@ =~= old(out)@ + join_with(pv, sep@));
        }
        k += 1;
    }
    proof {
        assert(parts@.take(parts@.len() as int) =~= parts@);
    }
}

/// Whether `needle` occurs as a contiguous subsequence of `hay`.
pub open spec fn contains_seq(hay: Seq<char>, needle: Seq<char>) -> bool {
    exists|i: int|
        0 <= i && i + needle.len() <= hay.len() && #[trigger] hay.subrange(i, i + needle.len())
            == needle
}

} // verus!
