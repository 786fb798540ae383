//! Small verified text helpers the parsers rely on: string equality,
//! whitespace trimming, and decimal parsing with an upper bound.

use vstd::prelude::*;
use vstd::string::StrSliceExecFns;

verus! {

/// Character-wise string equality.
pub fn str_eq(a: &str, b: &str) -> (r: bool)
    ensures
        r == (a@ == b@),
{
    let n = a.unicode_len();
    let m = b.unicode_len();
    if n != m {
        return false;
    }
    let mut i: usize = 0;
    while i < n
        invariant
            0 <= i <= n,
            n == a@.len(),
            n == b@.len(),
            forall|k: int| 0 <= k < i ==> a@[k] == b@[k],
        decreases n - i,
    {
        if a.get_char(i) != b.get_char(i) {
            return false;
        }
        i += 1;
    }
    proof {
        assert(a@ =~= b@);
    }
    true
}

/// The characters the standard library's trim removes: the Unicode
/// white-space set.
pub open spec fn spec_is_ws(c: char) -> bool {
    c == '\u{9}' || c == '\u{A}' || c == '\u{B}' || c == '\u{C}' || c == '\u{D}' || c == ' '
        || c == '\u{85}' || c == '\u{A0}' || c == '\u{1680}' || c == '\u{2000}' || c == '\u{2001}'
        || c == '\u{2002}' || c == '\u{2003}' || c == '\u{2004}' || c == '\u{2005}'
        || c == '\u{2006}' || c == '\u{2007}' || c == '\u{2008}' || c == '\u{2009}'
        || c == '\u{200A}' || c == '\u{2028}' || c == '\u{2029}' || c == '\u{202F}'
        || c == '\u{205F}' || c == '\u{3000}'
}

fn is_ws(c: char) -> (r: bool)
    ensures
        r == spec_is_ws(c),
{
    c == '\u{9}' || c == '\u{A}' || c == '\u{B}' || c == '\u{C}' || c == '\u{D}' || c == ' '
        || c == '\u{85}' || c == '\u{A0}' || c == '\u{1680}' || c == '\u{2000}' || c == '\u{2001}'
        || c == '\u{2002}' || c == '\u{2003}' || c == '\u{2004}' || c == '\u{2005}'
        || c == '\u{2006}' || c == '\u{2007}' || c == '\u{2008}' || c == '\u{2009}'
        || c == '\u{200A}' || c == '\u{2028}' || c == '\u{2029}' || c == '\u{202F}'
        || c == '\u{205F}' || c == '\u{3000}'
}

pub open spec fn spec_trim_start(s: Seq<char>) -> Seq<char>
    decreases s.len(),
{
    if s.len() > 0 && spec_is_ws(s[0]) {
        spec_trim_start(s.drop_first())
    } else {
        s
    }
}

pub open spec fn spec_trim_end(s: Seq<char>) -> Seq<char>
    decreases s.len(),
{
    if s.len() > 0 && spec_is_ws(s.last()) {
        spec_trim_end(s.drop_last())
    } else {
        s
    }
}

/// The string with leading and trailing white space removed.
pub open spec fn spec_trim(s: Seq<char>) -> Seq<char> {
    spec_trim_end(spec_trim_start(s))
}

proof fn lemma_trim_start_at(s: Seq<char>, i: int)
    requires
        0 <= i <= s.len(),
        forall|k: int| 0 <= k < i ==> spec_is_ws(s[k]),
        i == s.len() || !spec_is_ws(s[i]),
    ensures
        spec_trim_start(s) == s.subrange(i, s.len() as int),
    decreases i,
{
    if i == 0 {
        assert(s.subrange(0, s.len() as int) =~= s);
    } else {
        let t = s.drop_first();
        assert(t =~= s.subrange(1, s.len() as int));
        lemma_trim_start_at(t, i - 1);
        assert(t.subrange(i - 1, t.len() as int) =~= s.subrange(i, s.len() as int));
    }
}

proof fn lemma_trim_end_at(s: Seq<char>, j: int)
    requires
        0 <= j <= s.len(),
        forall|k: int| j <= k < s.len() ==> spec_is_ws(s[k]),
        j == 0 || !spec_is_ws(s[j - 1]),
    ensures
        spec_trim_end(s) == s.subrange(0, j),
    decreases s.len() - j,
{
    if j == s.len() {
        if s.len() > 0 && spec_is_ws(s.last()) {
            assert(!spec_is_ws(s[j - 1]));
            assert(false);
        }
        assert(s.subrange(0, j) =~= s);
    } else {
        let t = s.drop_last();
        lemma_trim_end_at(t, j);
        assert(t.subrange(0, j) =~= s.subrange(0, j));
    }
}

/// Remove leading and trailing white space, as the standard trim does.
pub fn trim_str(s: &str) -> (r: String)
    ensures
        r@ == spec_trim(s@),
{
    let len = s.unicode_len();
    let mut i: usize = 0;
    while i < len && is_ws(s.get_char(i))
        invariant
            0 <= i <= len,
            len == s@.len(),
            forall|k: int| 0 <= k < i ==> spec_is_ws(s@[k]),
        decreases len - i,
    {
        i += 1;
    }
    let mut j: usize = len;
    while j > i && is_ws(s.get_char(j - 1))
        invariant
            i <= j <= len,
            len == s@.len(),
            forall|k: int| 0 <= k < i ==> spec_is_ws(s@[k]),
            i == len || !spec_is_ws(s@[i as int]),
            forall|k: int| j <= k < len ==> spec_is_ws(s@[k]),
        decreases j,
    {
        j -= 1;
    }
    proof {
        lemma_trim_start_at(s@, i as int);
        let t = s@.subrange(i as int, len as int);
        lemma_trim_end_at(t, j - i);
        assert(t.subrange(0, j - i) =~= s@.subrange(i as int, j as int));
    }
    let piece = s.substring_char(i, j);
    String::from_str(piece)
}

fn digit_of(c: char) -> (d: i32)
    ensures
        d == spec_digit(c),
{
    match c {
        '0' => 0,
        '1' => 1,
        '2' => 2,
        '3' => 3,
        '4' => 4,
        '5' => 5,
        '6' => 6,
        '7' => 7,
        '8' => 8,
        '9' => 9,
        _ => -1,
    }
}

/// The numeric value of a decimal digit, or a negative marker.
pub open spec fn spec_digit(c: char) -> int {
    if c == '0' {
        0
    } else if c == '1' {
        1
    } else if c == '2' {
        2
    } else if c == '3' {
        3
    } else if c == '4' {
        4
    } else if c == '5' {
        5
    } else if c == '6' {
        6
    } else if c == '7' {
        7
    } else if c == '8' {
        8
    } else if c == '9' {
        9
    } else {
        -1
    }
}

/// A non-empty, all-digit character sequence.
pub open spec fn spec_digits_ok(s: Seq<char>) -> bool {
    s.len() > 0 && forall|k: int| 0 <= k < s.len() ==> spec_digit(s[k]) >= 0
}

/// The decimal value of an all-digit sequence.
pub open spec fn spec_digits_val(s: Seq<char>) -> int
    decreases s.len(),
{
    if s.len() == 0 {
        0
    } else {
        spec_digits_val(s.drop_last()) * 10 + spec_digit(s.last())
    }
}

/// What parsing an unsigned decimal with an upper bound yields: an optional
/// leading plus sign, then at least one digit and nothing else, with a
/// value at most `bound`; anything else is rejected.
pub open spec fn spec_parse_unsigned(s: Seq<char>, bound: int) -> Option<u32> {
    let body = if s.len() > 0 && s[0] == '+' {
        s.drop_first()
    } else {
        s
    };
    if spec_digits_ok(body) && spec_digits_val(body) <= bound {
        Some(spec_digits_val(body) as u32)
    } else {
        None
    }
}

proof fn lemma_digits_nonneg(s: Seq<char>)
    requires
        forall|k: int| 0 <= k < s.len() ==> spec_digit(s[k]) >= 0,
    ensures
        spec_digits_val(s) >= 0,
    decreases s.len(),
{
    if s.len() > 0 {
        lemma_digits_nonneg(s.drop_last());
    }
}

/// A longer digit string never has a smaller value.
proof fn lemma_digits_prefix_le(s: Seq<char>, m: int)
    requires
        0 <= m <= s.len(),
        forall|k: int| 0 <= k < s.len() ==> spec_digit(s[k]) >= 0,
    ensures
        spec_digits_val(s.subrange(0, m)) <= spec_digits_val(s),
    decreases s.len() - m,
{
    if m == s.len() {
        assert(s.subrange(0, m) =~= s);
    } else {
        lemma_digits_prefix_le(s, m + 1);
        let t = s.subrange(0, m + 1);
        assert(t.drop_last() =~= s.subrange(0, m));
        lemma_digits_nonneg(s.subrange(0, m));
        assert(spec_digits_val(t) == spec_digits_val(s.subrange(0, m)) * 10 + spec_digit(s[m]));
    }
}

/// Parse an unsigned decimal number of at most `bound`, as the standard
/// parser for the matching integer width does: an optional plus sign, one
/// or more digits, no other characters, no overflow.
pub fn parse_unsigned(s: &str, bound: u32) -> (r: Option<u32>)
    ensures
        r == spec_parse_unsigned(s@, bound as int),
{
    let len = s.unicode_len();
    let start: usize = if len > 0 && s.get_char(0) == '+' {
        1
    } else {
        0
    };
    let ghost body = if s@.len() > 0 && s@[0] == '+' {
        s@.drop_first()
    } else {
        s@
    };
    proof {
        assert(body =~= s@.subrange(start as int, len as int));
    }
    if start >= len {
        return None;
    }
    let mut val: u32 = 0;
    let mut k: usize = start;
    while k < len
        invariant
            start <= k <= len,
            len == s@.len(),
            body == s@.subrange(start as int, len as int),
            body == (if s@.len() > 0 && s@[0] == '+' {
                s@.drop_first()
            } else {
                s@
            }),
            forall|m: int| start <= m < k ==> spec_digit(s@[m]) >= 0,
            val == spec_digits_val(s@.subrange(start as int, k as int)),
            val <= bound,
        decreases len - k,
    {
        let c = s.get_char(k);
        let d: i32 = digit_of(c);
        if d < 0 {
            proof {
                assert(body[k - start] == s@[k as int]);
                assert(spec_digit(body[k - start]) < 0);
                assert(!spec_digits_ok(body));
                assert(spec_parse_unsigned(s@, bound as int) is None);
            }
            return None;
        }
        let nv: u64 = val as u64 * 10 + d as u64;
        proof {
            let t = s@.subrange(start as int, k + 1);
            assert(t.drop_last() =~= s@.subrange(start as int, k as int));
            assert(t.last() == s@[k as int]);
            assert(spec_digits_val(t) == nv);
            if nv > bound as u64 {
                assert(forall|m: int| 0 <= m < body.len() ==> body[m] == s@[start + m]);
                if spec_digits_ok(body) {
                    lemma_digits_prefix_le(body, k + 1 - start);
                    assert(body.subrange(0, k + 1 - start) =~= t);
                    assert(spec_digits_val(body) > bound);
                }
            }
        }
        if nv > bound as u64 {
            return None;
        }
        val = nv as u32;
        k += 1;
    }
    proof {
        assert(s@.subrange(start as int, len as int) =~= body);
        assert(spec_digits_ok(body));
    }
    Some(val)
}

/// What parsing a signed eight-bit decimal yields: an optional sign, then
/// at least one digit and nothing else, with the value in the type's range.
pub open spec fn spec_parse_i8(s: Seq<char>) -> Option<i8> {
    if s.len() > 0 && s[0] == '-' {
        let body = s.drop_first();
        if spec_digits_ok(body) && spec_digits_val(body) <= 128 {
            Some((-spec_digits_val(body)) as i8)
        } else {
            None
        }
    } else {
        match spec_parse_unsigned(s, 127) {
            Some(v) => Some(v as i8),
            None => None,
        }
    }
}

/// What parsing a signed 32-bit decimal yields: an optional sign, then at
/// least one digit and nothing else, with the value in the type's range.
pub open spec fn spec_parse_i32(s: Seq<char>) -> Option<i32> {
    if s.len() > 0 && s[0] == '-' {
        let body = s.drop_first();
        if spec_digits_ok(body) && spec_digits_val(body) <= 2147483648 {
            Some((-spec_digits_val(body)) as i32)
        } else {
            None
        }
    } else {
        match spec_parse_unsigned(s, 2147483647) {
            Some(v) => Some(v as i32),
            None => None,
        }
    }
}

/// Parse a signed 32-bit decimal, as the standard parser does.
pub fn parse_i32(s: &str) -> (r: Option<i32>)
    ensures
        r == spec_parse_i32(s@),
{
    let len = s.unicode_len();
    if len > 0 && s.get_char(0) == '-' {
        if len > 1 && s.get_char(1) == '+' {
            // the sign admits no second sign after it
            proof {
                assert(spec_digit(s@.drop_first()[0]) < 0);
            }
            return None;
        }
        let rest = s.substring_char(1, len);
        proof {
            assert(rest@ =~= s@.drop_first());
        }
        match parse_unsigned(rest, 2147483648) {
            Some(v) => {
                proof {
                    let body = s@.drop_first();
                    assert(spec_parse_unsigned(rest@, 2147483648) == Some(v));
                    lemma_digits_nonneg(body);
                    assert(0 <= spec_digits_val(body) <= 2147483648);
                    assert(v == spec_digits_val(body));
                }
                Some((-(v as i64)) as i32)
            },
            None => None,
        }
    } else {
        match parse_unsigned(s, 2147483647) {
            Some(v) => {
                proof {
                    let body = if s@.len() > 0 && s@[0] == '+' {
                        s@.drop_first()
                    } else {
                        s@
                    };
                    assert(spec_parse_unsigned(s@, 2147483647) == Some(v));
                    lemma_digits_nonneg(body);
                    assert(0 <= spec_digits_val(body) <= 2147483647);
                }
                Some(v as i32)
            },
            None => None,
        }
    }
}

/// Parse a signed eight-bit decimal, as the standard parser does.
pub fn parse_i8(s: &str) -> (r: Option<i8>)
    ensures
        r == spec_parse_i8(s@),
{
    let len = s.unicode_len();
    if len > 0 && s.get_char(0) == '-' {
        if len > 1 && s.get_char(1) == '+' {
            // the sign admits no second sign after it
            proof {
                assert(spec_digit(s@.drop_first()[0]) < 0);
            }
            return None;
        }
        let rest = s.substring_char(1, len);
        proof {
            assert(rest@ =~= s@.drop_first());
        }
        match parse_unsigned(rest, 128) {
            Some(v) => {
                proof {
                    let body = s@.drop_first();
                    assert(spec_parse_unsigned(rest@, 128) == Some(v));
                    lemma_digits_nonneg(body);
                    assert(0 <= spec_digits_val(body) <= 128);
                    assert(v == spec_digits_val(body));
                }
                Some((-(v as i64)) as i8)
            },
            None => None,
        }
    } else {
        match parse_unsigned(s, 127) {
            Some(v) => {
                proof {
                    let body = if s@.len() > 0 && s@[0] == '+' {
                        s@.drop_first()
                    } else {
                        s@
                    };
                    assert(spec_parse_unsigned(s@, 127) == Some(v));
                    lemma_digits_nonneg(body);
                    assert(0 <= spec_digits_val(body) <= 127);
                }
                Some(v as i8)
            },
            None => None,
        }
    }
}

} // verus!
