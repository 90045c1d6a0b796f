//! Classifying and parsing the raw guess text.
//!
//! A guess is accepted exactly when, after trimming surrounding whitespace,
//! it is a nonempty run of decimal digits whose value fits in `u32`. A sign,
//! an inner space, a decimal point or an overflowing value all count as a
//! parse failure.

use vstd::prelude::*;
use vstd::string::StrSliceExecFns;

verus! {

/// The whitespace characters trimmed from either end of a guess.
pub open spec fn is_space(c: char) -> bool {
    c == ' ' || c == '\t' || c == '\n' || c == '\r' || c == '\u{c}'
}

/// `s` with its leading whitespace removed.
pub open spec fn trim_front(s: Seq<char>) -> Seq<char>
    decreases s.len(),
{
    if s.len() > 0 && is_space(s[0]) {
        trim_front(s.drop_first())
    } else {
        s
    }
}

/// `s` with its trailing whitespace removed.
pub open spec fn trim_back(s: Seq<char>) -> Seq<char>
    decreases s.len(),
{
    if s.len() > 0 && is_space(s.last()) {
        trim_back(s.drop_last())
    } else {
        s
    }
}

/// `s` with whitespace removed from both ends.
pub open spec fn trimmed(s: Seq<char>) -> Seq<char> {
    trim_back(trim_front(s))
}

/// Whether `c` is a decimal digit.
pub open spec fn is_digit(c: char) -> bool {
    '0' as int <= c as int && c as int <= '9' as int
}

/// The numeric value of a digit character.
pub open spec fn digit_of(c: char) -> nat {
    (c as int - '0' as int) as nat
}

/// Whether every character of `s` is a decimal digit.
pub open spec fn all_digits(s: Seq<char>) -> bool {
    forall|i: int| 0 <= i < s.len() ==> is_digit(#[trigger] s[i])
}

/// The value of a digit run read in base 10 (empty reads as 0).
pub open spec fn digits_value(s: Seq<char>) -> nat
    decreases s.len(),
{
    if s.len() == 0 {
        0
    } else {
        digits_value(s.drop_last()) * 10 + digit_of(s.last())
    }
}

/// Whether the raw text `s` is an acceptable guess: after trimming it is a
/// nonempty digit run whose value fits in `u32`.
pub open spec fn parses(s: Seq<char>) -> bool {
    trimmed(s).len() > 0 && all_digits(trimmed(s)) && digits_value(trimmed(s)) <= u32::MAX
}

/// The value an acceptable guess denotes.
pub open spec fn parsed_value(s: Seq<char>) -> nat {
    digits_value(trimmed(s))
}

/// If everything before index `i` is whitespace and `i` is past the end or a
/// non-whitespace character, trimming the front of `s` keeps exactly `s[i..]`.
proof fn lemma_trim_front_is_suffix(s: Seq<char>, i: int)
    requires
        0 <= i <= s.len(),
        forall|j: int| 0 <= j < i ==> is_space(#[trigger] s[j]),
        i == s.len() || !is_space(s[i]),
    ensures
        trim_front(s) =~= s.subrange(i, s.len() as int),
    decreases i,
{
    if i == 0 {
        assert(trim_front(s) =~= s.subrange(0, s.len() as int));
    } else {
        lemma_trim_front_is_suffix(s.drop_first(), i - 1);
        assert(s.drop_first().subrange(i - 1, s.drop_first().len() as int) =~= s.subrange(
            i,
            s.len() as int,
        ));
    }
}

/// If everything from index `e` on is whitespace and `e` is at the start or
/// just past a non-whitespace character, trimming the back of `s` keeps
/// exactly `s[..e]`.
proof fn lemma_trim_back_is_prefix(s: Seq<char>, e: int)
    requires
        0 <= e <= s.len(),
        forall|j: int| e <= j < s.len() ==> is_space(#[trigger] s[j]),
        e == 0 || !is_space(s[e - 1]),
    ensures
        trim_back(s) =~= s.subrange(0, e),
    decreases s.len(),
{
    if e == s.len() {
        if s.len() == 0 || !is_space(s.last()) {
            assert(trim_back(s) =~= s.subrange(0, e));
        }
    } else {
        lemma_trim_back_is_prefix(s.drop_last(), e);
        assert(s.drop_last().subrange(0, e) =~= s.subrange(0, e));
    }
}

/// Reading more digits never makes the value smaller.
proof fn lemma_digits_value_prefix_le(s: Seq<char>, i: int)
    requires
        0 <= i <= s.len(),
    ensures
        digits_value(s.subrange(0, i)) <= digits_value(s),
    decreases s.len(),
{
    if i == s.len() {
        assert(s.subrange(0, i) =~= s);
    } else {
        lemma_digits_value_prefix_le(s.drop_last(), i);
        assert(s.drop_last().subrange(0, i) =~= s.subrange(0, i));
    }
}

/// The numeric value of one digit character, or `None` when `c` is no digit.
fn digit_value(c: char) -> (r: Option<u32>)
    ensures
        match r {
            Some(d) => is_digit(c) && d as nat == digit_of(c),
            None => !is_digit(c),
        },
{
    match c {
        '0' => Some(0),
        '1' => Some(1),
        '2' => Some(2),
        '3' => Some(3),
        '4' => Some(4),
        '5' => Some(5),
        '6' => Some(6),
        '7' => Some(7),
        '8' => Some(8),
        '9' => Some(9),
        _ => None,
    }
}

/// Whether `c` is one of the whitespace characters that trimming removes.
fn space(c: char) -> (r: bool)
    ensures
        r == is_space(c),
{
    c == ' ' || c == '\t' || c == '\n' || c == '\r' || c == '\u{c}'
}

/// Parse the raw guess text: trim whitespace, then accept exactly a nonempty
/// run of decimal digits whose value fits in `u32`.
pub fn parse_guess(s: &str) -> (r: Option<u32>)
    ensures
        match r {
            Some(v) => parses(s@) && v as nat == parsed_value(s@),
            None => !parses(s@),
        },
{
    let len = s.unicode_len();
    let mut start: usize = 0;
    while start < len && space(s.get_char(start))
        invariant
            0 <= start <= len,
            len == s@.len(),
            forall|j: int| 0 <= j < start ==> is_space(#[trigger] s@[j]),
        decreases len - start,
    {
        start = start + 1;
    }
    proof {
        lemma_trim_front_is_suffix(s@, start as int);
    }
    let mut end: usize = len;
    while end > start && space(s.get_char(end - 1))
        invariant
            start <= end <= len,
            len == s@.len(),
            start == len || !is_space(s@[start as int]),
            forall|j: int| end <= j < len ==> is_space(#[trigger] s@[j]),
        decreases end,
    {
        end = end - 1;
    }
    proof {
        let t = s@.subrange(start as int, len as int);
        assert(forall|j: int|
            end - start <= j < t.len() ==> is_space(#[trigger] t[j]) && t[j] == s@[j
                + start as int]);
        if end > start {
            assert(t[end - start - 1] == s@[end - 1]);
        }
        lemma_trim_back_is_prefix(t, end - start);
        assert(t.subrange(0, end - start) =~= s@.subrange(start as int, end as int));
        assert(trimmed(s@) =~= s@.subrange(start as int, end as int));
    }
    if start == end {
        return None;
    }
    let mut val: u32 = 0;
    let mut i: usize = start;
    while i < end
        invariant
            start <= i <= end <= s@.len(),
            start < end,
            trimmed(s@) =~= s@.subrange(start as int, end as int),
            forall|j: int| start <= j < i ==> is_digit(#[trigger] s@[j]),
            val as nat == digits_value(s@.subrange(start as int, i as int)),
        decreases end - i,
    {
        let c = s.get_char(i);
        let d = match digit_value(c) {
            Some(d) => d,
            None => {
                proof {
                    assert(trimmed(s@)[i - start] == s@[i as int]);
                }
                return None;
            },
        };
        if val > (u32::MAX - d) / 10 {
            proof {
                let t = s@.subrange(start as int, end as int);
                let grown = s@.subrange(start as int, i + 1);
                assert(grown.drop_last() =~= s@.subrange(start as int, i as int));
                assert(digits_value(grown) == val as nat * 10 + digit_of(c));
                assert(val as nat * 10 + d as nat > u32::MAX) by {
                    let q = (u32::MAX - d) as nat / 10;
                    assert((u32::MAX - d) as nat == q * 10 + (u32::MAX - d) as nat % 10);
                    assert(val as nat >= q + 1);
                    assert(val as nat * 10 >= (q + 1) * 10) by (nonlinear_arith)
                        requires
                            val as nat >= q + 1,
                    ;
                }
                assert(grown =~= t.subrange(0, i + 1 - start as int));
                lemma_digits_value_prefix_le(t, i + 1 - start as int);
            }
            return None;
        }
        proof {
            let q = (u32::MAX - d) as nat / 10;
            assert((u32::MAX - d) as nat == q * 10 + (u32::MAX - d) as nat % 10);
            assert(val as nat * 10 <= q * 10) by (nonlinear_arith)
                requires
                    val as nat <= q,
            ;
            assert(s@.subrange(start as int, i + 1).drop_last() =~= s@.subrange(
                start as int,
                i as int,
            ));
        }
        val = val * 10 + d;
        i = i + 1;
    }
    proof {
        assert(s@.subrange(start as int, i as int) =~= trimmed(s@));
    }
    Some(val)
}

} // verus!
