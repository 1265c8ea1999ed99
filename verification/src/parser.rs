//! The readiness parser: recognises the child's readiness announcement
//! in a single standard-output line and extracts the announced port.
//!
//! A line is a readiness announcement when it contains the marker
//! `Server running on` somewhere and its trailing colon-delimited token,
//! trimmed of surrounding whitespace, parses as an unsigned 16-bit
//! integer (an optional single leading `+` is accepted, as the standard
//! integer parser does).  Any other line is a normal non-match: no error
//! is raised and no port is produced.  Lines are handled as raw bytes,
//! exactly as the child's output stream delivers them.

use vstd::prelude::*;

verus! {

/// The marker that identifies a readiness announcement, as the bytes of
/// `"Server running on"`.
pub open spec fn marker() -> Seq<u8> {
    seq![
        83u8, 101u8, 114u8, 118u8, 101u8, 114u8, 32u8, 114u8, 117u8, 110u8, 110u8, 105u8, 110u8,
        103u8, 32u8, 111u8, 110u8,
    ]
}

/// Whether the marker occurs somewhere in `s`.
pub open spec fn contains_marker(s: Seq<u8>) -> bool {
    exists|i: int|
        0 <= i && i + marker().len() <= s.len() && #[trigger] s.subrange(
            i,
            i + marker().len() as int,
        ) == marker()
}

/// Index of the last colon in `s`, or -1 when `s` holds none.
pub open spec fn last_colon(s: Seq<u8>) -> int
    decreases s.len(),
{
    if s.len() == 0 {
        -1
    } else if s[s.len() - 1] == 58 {
        s.len() - 1
    } else {
        last_colon(s.drop_last())
    }
}

/// ASCII whitespace, as the standard trim treats ASCII text: space and
/// the control characters tab through carriage return.
pub open spec fn is_ascii_space(b: u8) -> bool {
    b == 32 || (9 <= b && b <= 13)
}

/// `s` without its leading whitespace.
pub open spec fn trim_front(s: Seq<u8>) -> Seq<u8>
    decreases s.len(),
{
    if s.len() > 0 && is_ascii_space(s[0]) {
        trim_front(s.drop_first())
    } else {
        s
    }
}

/// `s` without its trailing whitespace.
pub open spec fn trim_back(s: Seq<u8>) -> Seq<u8>
    decreases s.len(),
{
    if s.len() > 0 && is_ascii_space(s.last()) {
        trim_back(s.drop_last())
    } else {
        s
    }
}

/// `s` without leading and trailing whitespace.
pub open spec fn trimmed(s: Seq<u8>) -> Seq<u8> {
    trim_back(trim_front(s))
}

/// An ASCII decimal digit.
pub open spec fn is_digit(b: u8) -> bool {
    48 <= b && b <= 57
}

/// Whether every byte of `s` is a decimal digit.
pub open spec fn all_digits(s: Seq<u8>) -> bool {
    forall|k: int| 0 <= k < s.len() ==> is_digit(s[k])
}

/// The value of a sequence of decimal digits, most significant first.
pub open spec fn digits_val(s: Seq<u8>) -> int
    decreases s.len(),
{
    if s.len() == 0 {
        0
    } else {
        digits_val(s.drop_last()) * 10 + (s.last() - 48)
    }
}

/// The digits of a numeric token: the token itself, or the token behind
/// a single leading `+` sign.
pub open spec fn unsigned_body(t: Seq<u8>) -> Seq<u8> {
    if t.len() > 0 && t[0] == 43 {
        t.drop_first()
    } else {
        t
    }
}

/// Whether a trimmed token is a well-formed port number: nonempty
/// digits, optionally signed `+`, with a value of at most 65535.
pub open spec fn is_port_token(t: Seq<u8>) -> bool {
    let d = unsigned_body(t);
    d.len() > 0 && all_digits(d) && digits_val(d) <= 65535
}

/// The trailing colon-delimited token of a line, trimmed: everything
/// after the last colon, or the whole line when it holds no colon.
pub open spec fn token_of(s: Seq<u8>) -> Seq<u8> {
    trimmed(s.subrange(last_colon(s) + 1, s.len() as int))
}

/// What the readiness parser yields for a line: the announced port when
/// the line carries the marker and a well-formed trailing port token,
/// and nothing otherwise.
pub open spec fn readiness_port(s: Seq<u8>) -> Option<u16> {
    if contains_marker(s) && is_port_token(token_of(s)) {
        Some(digits_val(unsigned_body(token_of(s))) as u16)
    } else {
        None
    }
}

/// For every line that carries the marker and whose trailing token is a
/// well-formed port number `p`, the parser yields exactly `p`.
pub proof fn lemma_readiness_line_yields_port(s: Seq<u8>, p: u16)
    requires
        contains_marker(s),
        is_port_token(token_of(s)),
        digits_val(unsigned_body(token_of(s))) == p,
    ensures
        readiness_port(s) == Some(p),
{
}

/// For every line lacking the marker, or whose trailing token is
/// malformed, the parser yields nothing.
pub proof fn lemma_non_readiness_line_yields_nothing(s: Seq<u8>)
    requires
        !contains_marker(s) || !is_port_token(token_of(s)),
    ensures
        readiness_port(s) is None,
{
}

/// Lines of the announced shape do parse: whatever text stands before
/// the final colon, as long as it carries the marker, a line ending in
/// a colon and the decimal digits of `p` yields exactly `p`.
pub proof fn lemma_announcement_shape_parses(head: Seq<u8>, digits: Seq<u8>, p: u16)
    requires
        contains_marker(head),
        digits.len() > 0,
        all_digits(digits),
        digits_val(digits) == p,
    ensures
        readiness_port(head + seq![58u8] + digits) == Some(p),
{
    let s = head + seq![58u8] + digits;
    let i = choose|i: int|
        0 <= i && i + marker().len() <= head.len() && #[trigger] head.subrange(
            i,
            i + marker().len() as int,
        ) == marker();
    assert(s.subrange(i, i + marker().len() as int) =~= marker());
    assert(s[head.len() as int] == 58);
    assert(forall|k: int| head.len() < k < s.len() ==> s[k] == digits[k - head.len() - 1]);
    assert(forall|k: int| head.len() < k < s.len() ==> s[k] != 58);
    lemma_last_colon_at(s, head.len() as int);
    assert(s.subrange(last_colon(s) + 1, s.len() as int) =~= digits);
    assert(trim_front(digits) == digits);
    assert(trim_back(digits) == digits);
    assert(unsigned_body(digits) == digits);
    assert(is_port_token(token_of(s)));
}

/// The digit value of a sequence of digits is never negative.
proof fn lemma_digits_val_nonneg(s: Seq<u8>)
    requires
        all_digits(s),
    ensures
        digits_val(s) >= 0,
    decreases s.len(),
{
    if s.len() > 0 {
        assert(forall|k: int| 0 <= k < s.len() - 1 ==> s.drop_last()[k] == s[k]);
        lemma_digits_val_nonneg(s.drop_last());
    }
}

/// The marker, as bytes, for the running code to search for.
fn marker_bytes() -> (v: Vec<u8>)
    ensures
        v@ == marker(),
{
    let mut v: Vec<u8> = Vec::new();
    v.push(83u8);
    v.push(101u8);
    v.push(114u8);
    v.push(118u8);
    v.push(101u8);
    v.push(114u8);
    v.push(32u8);
    v.push(114u8);
    v.push(117u8);
    v.push(110u8);
    v.push(110u8);
    v.push(105u8);
    v.push(110u8);
    v.push(103u8);
    v.push(32u8);
    v.push(111u8);
    v.push(110u8);
    proof {
        assert(v@ =~= marker());
    }
    v
}

/// Whether the line contains the readiness marker.
fn find_marker(line: &[u8]) -> (found: bool)
    ensures
        found == contains_marker(line@),
{
    let m = marker_bytes();
    if line.len() < m.len() {
        return false;
    }
    let mut i: usize = 0;
    while i <= line.len() - m.len()
        invariant
            m@ == marker(),
            m.len() == marker().len(),
            m.len() <= line.len(),
            i <= line.len() - m.len() + 1,
            forall|k: int|
                0 <= k < i ==> #[trigger] line@.subrange(k, k + marker().len() as int)
                    != marker(),
        decreases line.len() - m.len() + 1 - i,
    {
        let mut j: usize = 0;
        let mut mismatch = false;
        while j < m.len()
            invariant
                m@ == marker(),
                m.len() == marker().len(),
                i + m.len() <= line.len(),
                j <= m.len(),
                !mismatch ==> forall|k: int| 0 <= k < j ==> line@[i + k] == marker()[k],
                mismatch ==> line@.subrange(i as int, i + marker().len() as int) != marker(),
            decreases m.len() - j,
        {
            if line[i + j] != m[j] {
                proof {
                    assert(line@.subrange(i as int, i + marker().len() as int)[j as int]
                        == line@[i + j]);
                }
                mismatch = true;
                j = m.len();
            } else {
                j = j + 1;
            }
        }
        if !mismatch {
            proof {
                assert(line@.subrange(i as int, i + marker().len() as int) =~= marker());
            }
            return true;
        }
        i = i + 1;
    }
    proof {
        assert(forall|k: int|
            0 <= k && k + marker().len() <= line@.len() ==> #[trigger] line@.subrange(
                k,
                k + marker().len() as int,
            ) != marker());
    }
    false
}

/// If `s[j]` is a colon and no later byte is one, the last colon of `s`
/// stands at `j`.
proof fn lemma_last_colon_at(s: Seq<u8>, j: int)
    requires
        0 <= j < s.len(),
        s[j] == 58,
        forall|k: int| j < k < s.len() ==> s[k] != 58,
    ensures
        last_colon(s) == j,
    decreases s.len(),
{
    if j < s.len() - 1 {
        lemma_last_colon_at(s.drop_last(), j);
    }
}

/// A sequence without a colon has no last colon.
proof fn lemma_last_colon_none(s: Seq<u8>)
    requires
        forall|k: int| 0 <= k < s.len() ==> s[k] != 58,
    ensures
        last_colon(s) == -1,
    decreases s.len(),
{
    if s.len() > 0 {
        lemma_last_colon_none(s.drop_last());
    }
}

/// Where the trailing token starts: one past the last colon, or the
/// start of the line when it holds no colon.
fn find_token_start(line: &[u8]) -> (start: usize)
    ensures
        start == last_colon(line@) + 1,
        start <= line@.len(),
{
    let mut i: usize = line.len();
    while i > 0
        invariant
            i <= line.len(),
            forall|k: int| i <= k < line@.len() ==> line@[k] != 58,
        decreases i,
    {
        if line[i - 1] == 58 {
            proof {
                lemma_last_colon_at(line@, i - 1);
            }
            return i;
        }
        i = i - 1;
    }
    proof {
        lemma_last_colon_none(line@);
    }
    0
}

/// ASCII-whitespace test on one byte.
fn is_space_byte(b: u8) -> (r: bool)
    ensures
        r == is_ascii_space(b),
{
    b == 32 || (9 <= b && b <= 13)
}

/// Decimal-digit test on one byte.
fn is_digit_byte(b: u8) -> (r: bool)
    ensures
        r == is_digit(b),
{
    48 <= b && b <= 57
}

/// Parses a single standard-output line of the child.  Yields the
/// announced port exactly when the line is a readiness announcement,
/// and nothing for every other line.
pub fn parse_readiness_line(line: &[u8]) -> (r: Option<u16>)
    ensures
        r == readiness_port(line@),
{
    if !find_marker(line) {
        return None;
    }
    let start = find_token_start(line);
    let ghost token: Seq<u8> = line@.subrange(last_colon(line@) + 1, line@.len() as int);
    // Trim leading whitespace of the trailing token.
    let mut lo: usize = start;
    while lo < line.len() && is_space_byte(line[lo])
        invariant
            start <= lo <= line.len(),
            token == line@.subrange(start as int, line@.len() as int),
            trim_front(token) == trim_front(line@.subrange(lo as int, line@.len() as int)),
        decreases line.len() - lo,
    {
        proof {
            let cur = line@.subrange(lo as int, line@.len() as int);
            assert(cur.drop_first() =~= line@.subrange(lo + 1, line@.len() as int));
        }
        lo = lo + 1;
    }
    proof {
        assert(trim_front(token) == line@.subrange(lo as int, line@.len() as int));
    }
    // Trim trailing whitespace of what is left.
    let mut hi: usize = line.len();
    while hi > lo && is_space_byte(line[hi - 1])
        invariant
            lo <= hi <= line.len(),
            trim_front(token) == line@.subrange(lo as int, line@.len() as int),
            trim_back(trim_front(token)) == trim_back(
                line@.subrange(lo as int, hi as int),
            ),
        decreases hi,
    {
        proof {
            let cur = line@.subrange(lo as int, hi as int);
            assert(cur.drop_last() =~= line@.subrange(lo as int, hi - 1));
        }
        hi = hi - 1;
    }
    proof {
        let cur = line@.subrange(lo as int, hi as int);
        if cur.len() > 0 {
            assert(cur.last() == line@[hi - 1]);
        }
        assert(trimmed(token) == cur);
    }
    let ghost tok: Seq<u8> = trimmed(token);
    // Skip a single leading plus sign, as the standard integer parser does.
    let mut dlo: usize = lo;
    if lo < hi && line[lo] == 43 {
        dlo = lo + 1;
    }
    proof {
        assert(unsigned_body(tok) =~= line@.subrange(dlo as int, hi as int));
    }
    let ghost digits: Seq<u8> = unsigned_body(tok);
    if dlo == hi {
        // Empty token (or a lone plus sign): not a port.
        return None;
    }
    // Accumulate the digit value, capping at the port range.
    let mut value: u32 = 0;
    let mut over = false;
    let mut k: usize = dlo;
    while k < hi
        invariant
            dlo <= k <= hi <= line.len(),
            contains_marker(line@),
            tok == token_of(line@),
            digits == unsigned_body(tok),
            digits == line@.subrange(dlo as int, hi as int),
            all_digits(line@.subrange(dlo as int, k as int)),
            !over ==> value == digits_val(line@.subrange(dlo as int, k as int)) && value
                <= 65535,
            over ==> digits_val(line@.subrange(dlo as int, k as int)) > 65535,
        decreases hi - k,
    {
        let b = line[k];
        if !is_digit_byte(b) {
            proof {
                assert(digits[k - dlo] == b);
                assert(!all_digits(digits));
            }
            return None;
        }
        proof {
            let pre = line@.subrange(dlo as int, k as int);
            let post = line@.subrange(dlo as int, k + 1);
            assert(post.drop_last() =~= pre);
            assert(post.last() == b);
            lemma_digits_val_nonneg(pre);
            assert(all_digits(post));
        }
        if !over {
            let nv = value * 10 + (b - 48) as u32;
            if nv > 65535 {
                over = true;
            } else {
                value = nv;
            }
        }
        k = k + 1;
    }
    proof {
        assert(line@.subrange(dlo as int, k as int) =~= digits);
    }
    if over {
        return None;
    }
    proof {
        assert(is_port_token(tok));
        lemma_digits_val_nonneg(digits);
    }
    Some(value as u16)
}

} // verus!
