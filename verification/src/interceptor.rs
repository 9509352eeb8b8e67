//! The stream interceptor: filters the sidecar's migration-progress
//! side-channel out of the stdout line stream, emitting structured
//! progress notifications instead of forwarding the marker lines.
use vstd::prelude::*;

use crate::events::CommandEvent;
use crate::events::SqliteMigrationProgress;

verus! {

/// ASCII whitespace, as single bytes.
pub open spec fn is_space_byte(b: u8) -> bool {
    b == (' ' as u8) || b == ('\t' as u8) || b == ('\n' as u8) || b == ('\r' as u8) || b == 11u8
        || b == 12u8
}

/// The three-byte UTF-8 encodings of Unicode whitespace: U+1680,
/// U+2000..U+200A, U+2028, U+2029, U+202F, U+205F and U+3000.
pub open spec fn is_three_byte_space(a: u8, b: u8, c: u8) -> bool {
    (a == 0xe1 && b == 0x9a && c == 0x80) || (a == 0xe2 && b == 0x80 && (0x80 <= c <= 0x8a || c
        == 0xa8 || c == 0xa9 || c == 0xaf)) || (a == 0xe2 && b == 0x81 && c == 0x9f) || (a == 0xe3
        && b == 0x80 && c == 0x80)
}

/// The length of the UTF-8-encoded whitespace character at the start of
/// `s`, or zero: an ASCII whitespace byte, the two-byte forms of U+0085
/// and U+00A0, or a three-byte form. Together these are exactly the
/// encodings of the characters with the Unicode `White_Space` property,
/// so trimming by them matches `str::trim` on decoded text.
pub open spec fn ws_prefix_len(s: Seq<u8>) -> int {
    if s.len() >= 1 && is_space_byte(s[0]) {
        1
    } else if s.len() >= 2 && s[0] == 0xc2 && (s[1] == 0x85 || s[1] == 0xa0) {
        2
    } else if s.len() >= 3 && is_three_byte_space(s[0], s[1], s[2]) {
        3
    } else {
        0
    }
}

/// The length of the encoded whitespace character at the end of `s`, or
/// zero.
pub open spec fn ws_suffix_len(s: Seq<u8>) -> int {
    if s.len() >= 1 && is_space_byte(s[s.len() - 1]) {
        1
    } else if s.len() >= 2 && s[s.len() - 2] == 0xc2 && (s[s.len() - 1] == 0x85 || s[s.len() - 1]
        == 0xa0) {
        2
    } else if s.len() >= 3 && is_three_byte_space(s[s.len() - 3], s[s.len() - 2], s[s.len() - 1]) {
        3
    } else {
        0
    }
}

/// The byte sequence with leading encoded whitespace removed.
pub open spec fn trim_front_bytes(s: Seq<u8>) -> Seq<u8>
    decreases s.len(),
{
    if ws_prefix_len(s) > 0 {
        trim_front_bytes(s.skip(ws_prefix_len(s)))
    } else {
        s
    }
}

/// The byte sequence with trailing encoded whitespace removed.
pub open spec fn trim_back_bytes(s: Seq<u8>) -> Seq<u8>
    decreases s.len(),
{
    if ws_suffix_len(s) > 0 {
        trim_back_bytes(s.take(s.len() - ws_suffix_len(s)))
    } else {
        s
    }
}

/// The byte sequence trimmed of encoded whitespace on both sides.
pub open spec fn trimmed_bytes(s: Seq<u8>) -> Seq<u8> {
    trim_back_bytes(trim_front_bytes(s))
}

fn is_space_b(b: u8) -> (r: bool)
    ensures
        r == is_space_byte(b),
{
    b == (' ' as u8) || b == ('\t' as u8) || b == ('\n' as u8) || b == ('\r' as u8) || b == 11u8
        || b == 12u8
}

fn three_byte_space_b(a: u8, b: u8, c: u8) -> (r: bool)
    ensures
        r == is_three_byte_space(a, b, c),
{
    (a == 0xe1 && b == 0x9a && c == 0x80) || (a == 0xe2 && b == 0x80 && ((0x80 <= c && c <= 0x8a)
        || c == 0xa8 || c == 0xa9 || c == 0xaf)) || (a == 0xe2 && b == 0x81 && c == 0x9f) || (a
        == 0xe3 && b == 0x80 && c == 0x80)
}

fn ws_run_front(line: &Vec<u8>, a: usize, b: usize) -> (r: usize)
    requires
        a <= b <= line@.len(),
    ensures
        r == ws_prefix_len(line@.subrange(a as int, b as int)),
        a + r <= b,
{
    let ghost sub = line@.subrange(a as int, b as int);
    proof {
        if sub.len() >= 1 {
            assert(sub[0] == line@[a as int]);
        }
        if sub.len() >= 2 {
            assert(sub[1] == line@[a + 1]);
        }
        if sub.len() >= 3 {
            assert(sub[2] == line@[a + 2]);
        }
    }
    if b - a >= 1 && is_space_b(line[a]) {
        1
    } else if b - a >= 2 && line[a] == 0xc2 && (line[a + 1] == 0x85 || line[a + 1] == 0xa0) {
        2
    } else if b - a >= 3 && three_byte_space_b(line[a], line[a + 1], line[a + 2]) {
        3
    } else {
        0
    }
}

fn ws_run_back(line: &Vec<u8>, a: usize, b: usize) -> (r: usize)
    requires
        a <= b <= line@.len(),
    ensures
        r == ws_suffix_len(line@.subrange(a as int, b as int)),
        r <= b - a,
{
    let ghost sub = line@.subrange(a as int, b as int);
    proof {
        if sub.len() >= 1 {
            assert(sub[sub.len() - 1] == line@[b - 1]);
        }
        if sub.len() >= 2 {
            assert(sub[sub.len() - 2] == line@[b - 2]);
        }
        if sub.len() >= 3 {
            assert(sub[sub.len() - 3] == line@[b - 3]);
        }
    }
    if b - a >= 1 && is_space_b(line[b - 1]) {
        1
    } else if b - a >= 2 && line[b - 2] == 0xc2 && (line[b - 1] == 0x85 || line[b - 1] == 0xa0) {
        2
    } else if b - a >= 3 && three_byte_space_b(line[b - 3], line[b - 2], line[b - 1]) {
        3
    } else {
        0
    }
}

/// Narrows `[lo, hi)` in `line` to the bounds of its whitespace-trimmed
/// interior.
fn trim_bytes_range(line: &Vec<u8>, lo: usize, hi: usize) -> (r: (usize, usize))
    requires
        lo <= hi <= line@.len(),
    ensures
        lo <= r.0 <= r.1 <= hi,
        line@.subrange(r.0 as int, r.1 as int) == trimmed_bytes(
            line@.subrange(lo as int, hi as int),
        ),
{
    let ghost sub = line@.subrange(lo as int, hi as int);
    let mut a = lo;
    let mut k = ws_run_front(line, a, hi);
    while k != 0
        invariant
            lo <= a <= hi <= line@.len(),
            trim_front_bytes(line@.subrange(lo as int, hi as int)) == trim_front_bytes(
                line@.subrange(a as int, hi as int),
            ),
            k == ws_prefix_len(line@.subrange(a as int, hi as int)),
            a + k <= hi,
        decreases hi - a,
    {
        proof {
            assert(line@.subrange(a as int, hi as int).skip(k as int) =~= line@.subrange(
                a + k,
                hi as int,
            ));
        }
        a += k;
        k = ws_run_front(line, a, hi);
    }
    let mut b = hi;
    let mut j = ws_run_back(line, a, b);
    while j != 0
        invariant
            lo <= a <= b <= hi <= line@.len(),
            trim_back_bytes(line@.subrange(a as int, hi as int)) == trim_back_bytes(
                line@.subrange(a as int, b as int),
            ),
            j == ws_suffix_len(line@.subrange(a as int, b as int)),
            j <= b - a,
        decreases b - a,
    {
        proof {
            let cur = line@.subrange(a as int, b as int);
            assert(cur.take(cur.len() - j) =~= line@.subrange(a as int, b - j));
        }
        b -= j;
        j = ws_run_back(line, a, b);
    }
    proof {
        assert(trim_front_bytes(sub) == line@.subrange(a as int, hi as int));
        assert(trim_back_bytes(line@.subrange(a as int, hi as int)) == line@.subrange(
            a as int,
            b as int,
        ));
    }
    (a, b)
}

/// An ASCII decimal digit.
pub open spec fn is_digit_byte(b: u8) -> bool {
    ('0' as u8) <= b <= ('9' as u8)
}

/// The value of a sequence of ASCII digits, most significant first.
pub open spec fn digits_val(ds: Seq<u8>) -> int
    decreases ds.len(),
{
    if ds.len() == 0 {
        0
    } else {
        digits_val(ds.drop_last()) * 10 + (ds.last() - ('0' as u8))
    }
}

proof fn lemma_digits_val_nonneg(ds: Seq<u8>)
    requires
        forall|k: int| 0 <= k < ds.len() ==> is_digit_byte(ds[k]),
    ensures
        digits_val(ds) >= 0,
    decreases ds.len(),
{
    if ds.len() > 0 {
        lemma_digits_val_nonneg(ds.drop_last());
    }
}

proof fn lemma_digits_val_prefix_le(ds: Seq<u8>, i: int)
    requires
        forall|k: int| 0 <= k < ds.len() ==> is_digit_byte(ds[k]),
        0 <= i <= ds.len(),
    ensures
        digits_val(ds.take(i)) <= digits_val(ds),
    decreases ds.len() - i,
{
    if i == ds.len() {
        assert(ds.take(i) =~= ds);
    } else {
        lemma_digits_val_prefix_le(ds, i + 1);
        let p = ds.take(i + 1);
        assert(p.drop_last() =~= ds.take(i));
        assert(p.last() == ds[i]);
        lemma_digits_val_nonneg(ds.take(i));
        assert(digits_val(ds.take(i)) <= digits_val(p));
    }
}

/// The byte sequence with one optional leading `'+'` removed.
pub open spec fn strip_plus(bs: Seq<u8>) -> Seq<u8> {
    if bs.len() > 0 && bs[0] == ('+' as u8) {
        bs.drop_first()
    } else {
        bs
    }
}

/// Whether every byte is an ASCII digit.
pub open spec fn all_digits(ds: Seq<u8>) -> bool {
    forall|k: int| 0 <= k < ds.len() ==> is_digit_byte(#[trigger] ds[k])
}

/// How `u8::from_str` reads a byte sequence: an optional leading `'+'`,
/// then at least one ASCII digit, with a value of at most 255.
pub open spec fn parse_u8_spec(bs: Seq<u8>) -> Option<u8> {
    if strip_plus(bs).len() >= 1 && all_digits(strip_plus(bs)) && digits_val(strip_plus(bs))
        <= 255 {
        Some(digits_val(strip_plus(bs)) as u8)
    } else {
        None
    }
}

/// Parses `line[lo..hi]` as `u8::from_str` would.
fn parse_u8_bytes(line: &Vec<u8>, lo: usize, hi: usize) -> (r: Option<u8>)
    requires
        lo <= hi <= line@.len(),
    ensures
        r == parse_u8_spec(line@.subrange(lo as int, hi as int)),
{
    let ghost bs = line@.subrange(lo as int, hi as int);
    let mut i = lo;
    if i < hi && line[i] == ('+' as u8) {
        i += 1;
    }
    let ghost ds = line@.subrange(i as int, hi as int);
    proof {
        if bs.len() > 0 && bs[0] == ('+' as u8) {
            assert(ds =~= bs.drop_first());
        } else {
            assert(ds =~= bs);
        }
        assert(ds == strip_plus(bs));
    }
    if i == hi {
        return None;
    }
    let mut val: u32 = 0;
    let mut j = i;
    while j < hi
        invariant
            lo <= i <= j <= hi <= line@.len(),
            bs == line@.subrange(lo as int, hi as int),
            ds == line@.subrange(i as int, hi as int),
            ds == strip_plus(bs),
            ds.len() >= 1,
            forall|k: int| 0 <= k < j - i ==> is_digit_byte(ds[k]),
            val == digits_val(ds.take(j - i)),
            val <= 255,
        decreases hi - j,
    {
        let b = line[j];
        if !(b >= ('0' as u8) && b <= ('9' as u8)) {
            proof {
                assert(ds[j - i] == line@[j as int]);
                assert(!is_digit_byte(ds[j - i]));
                assert(!all_digits(ds));
            }
            return None;
        }
        proof {
            assert(ds.take(j - i + 1).drop_last() =~= ds.take(j - i));
            assert(ds.take(j - i + 1).last() == ds[j - i]);
            assert(ds[j - i] == line@[j as int]);
        }
        val = val * 10 + ((b - ('0' as u8)) as u32);
        if val > 255 {
            proof {
                if all_digits(ds) {
                    lemma_digits_val_prefix_le(ds, j - i + 1);
                }
            }
            return None;
        }
        j += 1;
    }
    proof {
        assert(ds.take(hi - i) =~= ds);
    }
    Some(val as u8)
}

/// The byte form of the reserved migration-marker prefix,
/// `sqlite-migration:`.
pub open spec fn migration_prefix() -> Seq<u8> {
    seq![
        's' as u8,
        'q' as u8,
        'l' as u8,
        'i' as u8,
        't' as u8,
        'e' as u8,
        '-' as u8,
        'm' as u8,
        'i' as u8,
        'g' as u8,
        'r' as u8,
        'a' as u8,
        't' as u8,
        'i' as u8,
        'o' as u8,
        'n' as u8,
        ':' as u8,
    ]
}

/// Whether a stdout line begins with the migration-marker prefix.
pub open spec fn has_migration_prefix(l: Seq<u8>) -> bool {
    l.len() >= 17 && l.subrange(0, 17) == migration_prefix()
}

fn check_migration_prefix(line: &Vec<u8>) -> (r: bool)
    ensures
        r == has_migration_prefix(line@),
{
    let p = "sqlite-migration:".as_bytes();
    proof {
        reveal_strlit("sqlite-migration:");
        broadcast use vstd::string::is_ascii_spec_bytes;

        assert("sqlite-migration:"@.len() == 17);
        assert(vstd::string::is_ascii("sqlite-migration:"));
        assert(p@ =~= migration_prefix());
    }
    if line.len() < 17 {
        return false;
    }
    let mut k: usize = 0;
    while k < 17
        invariant
            line@.len() >= 17,
            p@ == migration_prefix(),
            p@.len() == 17,
            0 <= k <= 17,
            forall|t: int| 0 <= t < k ==> line@[t] == migration_prefix()[t],
        decreases 17 - k,
    {
        if line[k] != p[k] {
            return false;
        }
        k += 1;
    }
    proof {
        assert(line@.subrange(0, 17) =~= migration_prefix());
    }
    true
}

/// The bytes `done`, the migration-complete sentinel.
pub open spec fn done_token() -> Seq<u8> {
    seq!['d' as u8, 'o' as u8, 'n' as u8, 'e' as u8]
}

fn is_done_token(line: &Vec<u8>, lo: usize, hi: usize) -> (r: bool)
    requires
        lo <= hi <= line@.len(),
    ensures
        r == (line@.subrange(lo as int, hi as int) == done_token()),
{
    if hi - lo != 4 {
        proof {
            assert(line@.subrange(lo as int, hi as int).len() != 4);
        }
        return false;
    }
    let r = line[lo] == ('d' as u8) && line[lo + 1] == ('o' as u8) && line[lo + 2] == ('n' as u8)
        && line[lo + 3] == ('e' as u8);
    proof {
        if r {
            assert(line@.subrange(lo as int, hi as int) =~= done_token());
        } else {
            assert(line@.subrange(lo as int, hi as int) != done_token());
        }
    }
    r
}

/// The trimmed payload following the migration prefix.
pub open spec fn migration_payload(l: Seq<u8>) -> Seq<u8> {
    trimmed_bytes(l.skip(17))
}

/// The progress notification a prefixed line carries, if any: a percentage
/// in `0..=255`, the completion sentinel, or nothing for malformed
/// protocol noise.
pub open spec fn migration_signal(l: Seq<u8>) -> Option<SqliteMigrationProgress> {
    if parse_u8_spec(migration_payload(l)) is Some {
        Some(SqliteMigrationProgress::InProgress(parse_u8_spec(migration_payload(l)).unwrap()))
    } else if migration_payload(l) == done_token() {
        Some(SqliteMigrationProgress::Done)
    } else {
        None
    }
}

/// What the interceptor does with one event, given whether the migration
/// has already been reported complete for this stream.
///
/// Before completion: stdout lines carrying the migration prefix are
/// suppressed, yielding their progress notification if they parse and
/// nothing if they are malformed protocol noise; every other event —
/// non-matching stdout lines included, whether or not they decode as
/// UTF-8 — passes through unchanged. After completion everything passes
/// through unchanged.
pub open spec fn intercept_spec(done: bool, event: CommandEvent) -> (bool, Option<
    CommandEvent,
>, Option<SqliteMigrationProgress>) {
    if done {
        (true, Some(event), None)
    } else {
        match event {
            CommandEvent::Stdout(l) => if has_migration_prefix(l@) {
                match migration_signal(l@) {
                    Some(SqliteMigrationProgress::InProgress(p)) => (
                        false,
                        None,
                        Some(SqliteMigrationProgress::InProgress(p)),
                    ),
                    Some(SqliteMigrationProgress::Done) => (
                        true,
                        None,
                        Some(SqliteMigrationProgress::Done),
                    ),
                    None => (false, None, None),
                }
            } else {
                (false, Some(CommandEvent::Stdout(l)), None)
            },
            _ => (false, Some(event), None),
        }
    }
}

/// Law: once the completion sentinel has been seen, every event — marker
/// lines included — passes through unmodified and yields no further
/// notification, so nothing can accidentally re-match the protocol.
pub proof fn lemma_completed_stream_passes_through(event: CommandEvent)
    ensures
        intercept_spec(true, event) == (true, Some(event), None::<SqliteMigrationProgress>),
{
}

/// Law: before completion, a stdout line carrying the marker prefix is
/// never forwarded downstream, whether or not its payload parses.
pub proof fn lemma_marker_lines_suppressed(l: Vec<u8>)
    requires
        has_migration_prefix(l@),
    ensures
        intercept_spec(false, CommandEvent::Stdout(l)).1 is None,
{
}

/// The stateful stream transform that extracts migration progress from
/// stdout lines. One boolean of state: whether the migration has completed
/// for this stream, after which all lines pass through untouched.
pub struct Interceptor {
    done: bool,
}

impl Interceptor {
    /// Whether the completion sentinel has been seen.
    pub closed spec fn migration_done(&self) -> bool {
        self.done
    }

    /// An interceptor for a fresh event stream.
    pub fn new() -> (r: Self)
        ensures
            !r.migration_done(),
    {
        Interceptor { done: false }
    }

    /// Processes one event: returns the event to forward downstream, if
    /// any, and the progress notification to emit, if any.
    pub fn process(&mut self, event: CommandEvent) -> (r: (
        Option<CommandEvent>,
        Option<SqliteMigrationProgress>,
    ))
        ensures
            (final(self).migration_done(), r.0, r.1) == intercept_spec(
                old(self).migration_done(),
                event,
            ),
    {
        if self.done {
            return (Some(event), None);
        }
        match event {
            CommandEvent::Stdout(l) => {
                if check_migration_prefix(&l) {
                    let n = l.len();
                    let (a, b) = trim_bytes_range(&l, 17, n);
                    proof {
                        assert(l@.subrange(17, n as int) =~= l@.skip(17));
                    }
                    match parse_u8_bytes(&l, a, b) {
                        Some(p) => (None, Some(SqliteMigrationProgress::InProgress(p))),
                        None => {
                            if is_done_token(&l, a, b) {
                                self.done = true;
                                (None, Some(SqliteMigrationProgress::Done))
                            } else {
                                (None, None)
                            }
                        },
                    }
                } else {
                    (Some(CommandEvent::Stdout(l)), None)
                }
            },
            _ => (Some(event), None),
        }
    }
}

} // verus!
