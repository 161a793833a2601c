//! Character classes and scanning helpers shared by the line grammars.
use vstd::prelude::*;
use vstd::string::StrSliceExecFns;

verus! {

/// Whitespace as the line grammars understand it.
pub open spec fn is_space(c: char) -> bool {
    c == ' ' || c == '\t' || c == '\n' || c == '\r' || c == '\x0b' || c == '\x0c'
}

pub open spec fn is_digit(c: char) -> bool {
    '0' <= c && c <= '9'
}

/// A thousands-group separator inside a number (`1,234,567` or `1.234.567`).
pub open spec fn is_separator(c: char) -> bool {
    c == ',' || c == '.'
}

pub open spec fn digit_value(c: char) -> nat {
    (c as nat - '0' as nat) as nat
}

/// First position at or after `i` that is not whitespace (or the end).
pub open spec fn skip_ws(s: Seq<char>, i: int) -> int
    decreases s.len() - i,
{
    if 0 <= i < s.len() && is_space(s[i]) {
        skip_ws(s, i + 1)
    } else {
        i
    }
}

/// First position at or after `i` that is whitespace (or the end).
pub open spec fn token_end(s: Seq<char>, i: int) -> int
    decreases s.len() - i,
{
    if 0 <= i < s.len() && !is_space(s[i]) {
        token_end(s, i + 1)
    } else {
        i
    }
}

/// The number a digit string denotes, separators skipped.
pub open spec fn grouped_value(t: Seq<char>) -> nat
    decreases t.len(),
{
    if t.len() == 0 {
        0
    } else if is_digit(t.last()) {
        grouped_value(t.drop_last()) * 10 + digit_value(t.last())
    } else {
        grouped_value(t.drop_last())
    }
}

/// A number written with optional group separators: a digit first, then
/// digits and separators.
pub open spec fn is_grouped_number(t: Seq<char>) -> bool {
    &&& t.len() > 0
    &&& is_digit(t[0])
    &&& forall|k: int| 0 <= k < t.len() ==> is_digit(#[trigger] t[k]) || is_separator(t[k])
}

pub open spec fn all_digits(t: Seq<char>) -> bool {
    forall|k: int| 0 <= k < t.len() ==> is_digit(#[trigger] t[k])
}

/// The value of a grouped number, where it fits in 64 bits.
pub open spec fn grouped_u64(t: Seq<char>) -> Option<u64> {
    if is_grouped_number(t) && grouped_value(t) <= u64::MAX {
        Some(grouped_value(t) as u64)
    } else {
        None
    }
}

pub fn is_space_char(c: char) -> (r: bool)
    ensures
        r == is_space(c),
{
    c == ' ' || c == '\t' || c == '\n' || c == '\r' || c == '\x0b' || c == '\x0c'
}

pub fn is_digit_char(c: char) -> (r: bool)
    ensures
        r == is_digit(c),
{
    '0' <= c && c <= '9'
}

pub fn is_separator_char(c: char) -> (r: bool)
    ensures
        r == is_separator(c),
{
    c == ',' || c == '.'
}

/// Moves past whitespace from position `i`.
pub fn skip_spaces(s: &str, len: usize, i: usize) -> (r: usize)
    requires
        len == s@.len(),
        i <= len,
    ensures
        r == skip_ws(s@, i as int),
        i <= r <= len,
{
    let mut j = i;
    while j < len && is_space_char(s.get_char(j))
        invariant
            len == s@.len(),
            i <= j <= len,
            skip_ws(s@, i as int) == skip_ws(s@, j as int),
        decreases len - j,
    {
        j = j + 1;
    }
    j
}

/// Moves to the end of the token that starts at `i`.
pub fn scan_token(s: &str, len: usize, i: usize) -> (r: usize)
    requires
        len == s@.len(),
        i <= len,
    ensures
        r == token_end(s@, i as int),
        i <= r <= len,
{
    let mut j = i;
    while j < len && !is_space_char(s.get_char(j))
        invariant
            len == s@.len(),
            i <= j <= len,
            token_end(s@, i as int) == token_end(s@, j as int),
        decreases len - j,
    {
        j = j + 1;
    }
    j
}

/// Reads the grouped number `s[from..to]`.
pub fn parse_grouped_range(s: &str, len: usize, from: usize, to: usize) -> (r: Option<u64>)
    requires
        len == s@.len(),
        from <= to <= len,
    ensures
        r == grouped_u64(s@.subrange(from as int, to as int)),
{
    let ghost t = s@.subrange(from as int, to as int);
    if from == to || !is_digit_char(s.get_char(from)) {
        return None;
    }
    let mut acc: u64 = 0;
    let mut j = from;
    while j < to
        invariant
            len == s@.len(),
            from <= j <= to <= len,
            t == s@.subrange(from as int, to as int),
            acc as nat == grouped_value(s@.subrange(from as int, j as int)),
            forall|k: int| from <= k < j ==> is_digit(#[trigger] s@[k]) || is_separator(s@[k]),
        decreases to - j,
    {
        let c = s.get_char(j);
        let ghost prev = s@.subrange(from as int, j as int);
        let ghost next = s@.subrange(from as int, j + 1);
        assert(next.drop_last() =~= prev);
        if is_digit_char(c) {
            let d = (c as u32 - '0' as u32) as u64;
            if acc > (u64::MAX - d) / 10 {
                proof {
                    assert(grouped_value(next) == acc * 10 + d);
                    assert(grouped_value(next) > u64::MAX) by (nonlinear_arith)
                        requires
                            acc > (u64::MAX - d) / 10,
                            d <= 9,
                            grouped_value(next) == acc * 10 + d,
                    ;
                    lemma_grouped_value_grows(t, (j + 1 - from) as int);
                    assert(t.subrange(0, (j + 1 - from) as int) =~= next);
                }
                return None;
            }
            proof {
                assert(acc * 10 + d <= u64::MAX) by (nonlinear_arith)
                    requires
                        acc <= (u64::MAX - d) / 10,
                        d <= 9,
                ;
            }
            acc = acc * 10 + d;
        } else if !is_separator_char(c) {
            assert(t[j - from] == c);
            return None;
        }
        j = j + 1;
    }
    assert(s@.subrange(from as int, to as int) =~= t);
    Some(acc)
}

/// A longer prefix of a digit string never denotes a smaller number.
pub proof fn lemma_grouped_value_grows(t: Seq<char>, k: int)
    requires
        0 <= k <= t.len(),
    ensures
        grouped_value(t.subrange(0, k)) <= grouped_value(t),
    decreases t.len() - k,
{
    if k < t.len() {
        lemma_grouped_value_grows(t, k + 1);
        let a = t.subrange(0, k);
        let b = t.subrange(0, k + 1);
        assert(b.drop_last() =~= a);
        assert(grouped_value(a) <= grouped_value(b)) by (nonlinear_arith)
            requires
                grouped_value(b) == grouped_value(a) * 10 + digit_value(b.last()) || grouped_value(
                    b,
                ) == grouped_value(a),
        ;
    } else {
        assert(t.subrange(0, k) =~= t);
    }
}

/// Reads a number written with group separators, such as `1,234,567`.
pub fn grouped_number(s: &str) -> (r: Option<u64>)
    ensures
        r == grouped_u64(s@),
{
    let len = s.unicode_len();
    let r = parse_grouped_range(s, len, 0, len);
    assert(s@.subrange(0, len as int) =~= s@);
    r
}

/// End of `s[..j]` once trailing whitespace is dropped.
pub open spec fn trim_end_at(s: Seq<char>, j: int) -> int
    decreases j,
{
    if 0 < j <= s.len() && is_space(s[j - 1]) {
        trim_end_at(s, j - 1)
    } else {
        j
    }
}

/// `lit` stands in `s` at position `i`.
pub open spec fn text_at(s: Seq<char>, i: int, lit: Seq<char>) -> bool {
    0 <= i && i + lit.len() <= s.len() && s.subrange(i, i + lit.len()) == lit
}

/// End of a number that starts at `i`: digits, where a single separator
/// may stand between two digits (`1,234` or `2.50`).
pub open spec fn number_end(s: Seq<char>, i: int) -> int
    decreases s.len() - i,
{
    if 0 <= i < s.len() && is_digit(s[i]) {
        number_end(s, i + 1)
    } else if 0 < i && i + 1 < s.len() && is_digit(s[i - 1]) && is_separator(s[i]) && is_digit(
        s[i + 1],
    ) {
        number_end(s, i + 2)
    } else {
        i
    }
}

/// First position in `[i, end)` holding `c`, or `end`.
pub open spec fn find_from(s: Seq<char>, c: char, i: int, end: int) -> int
    decreases end - i,
{
    if 0 <= i < end && i < s.len() && s[i] != c {
        find_from(s, c, i + 1, end)
    } else {
        i
    }
}

pub fn trim_end_from(s: &str, len: usize, j: usize) -> (r: usize)
    requires
        len == s@.len(),
        j <= len,
    ensures
        r == trim_end_at(s@, j as int),
        r <= j,
{
    let mut k = j;
    while k > 0 && is_space_char(s.get_char(k - 1))
        invariant
            len == s@.len(),
            k <= j <= len,
            trim_end_at(s@, j as int) == trim_end_at(s@, k as int),
        decreases k,
    {
        k = k - 1;
    }
    k
}

/// Whether `lit` stands in `s` at position `i`.
pub fn text_at_exec(s: &str, len: usize, i: usize, lit: &str) -> (r: bool)
    requires
        len == s@.len(),
        i <= len,
    ensures
        r == text_at(s@, i as int, lit@),
        r ==> i + lit@.len() <= len,
{
    let n = lit.unicode_len();
    if n > len - i {
        return false;
    }
    let mut k: usize = 0;
    while k < n
        invariant
            len == s@.len(),
            n == lit@.len(),
            i + n <= len,
            k <= n,
            forall|q: int| 0 <= q < k ==> s@[i + q] == #[trigger] lit@[q],
        decreases n - k,
    {
        if s.get_char(i + k) != lit.get_char(k) {
            assert(s@.subrange(i as int, i + n)[k as int] != lit@[k as int]);
            return false;
        }
        k = k + 1;
    }
    assert(s@.subrange(i as int, i + n) =~= lit@);
    true
}

pub fn scan_number(s: &str, len: usize, i: usize) -> (r: usize)
    requires
        len == s@.len(),
        i <= len,
    ensures
        r == number_end(s@, i as int),
        i <= r <= len,
{
    let mut j = i;
    loop
        invariant
            len == s@.len(),
            i <= j <= len,
            number_end(s@, i as int) == number_end(s@, j as int),
        decreases len - j,
    {
        if j < len && is_digit_char(s.get_char(j)) {
            j = j + 1;
        } else if 0 < j && j < len && j + 1 < len && is_digit_char(s.get_char(j - 1)) && is_separator_char(
            s.get_char(j),
        ) && is_digit_char(s.get_char(j + 1)) {
            j = j + 2;
        } else {
            return j;
        }
    }
}

pub fn find_char(s: &str, len: usize, c: char, i: usize, end: usize) -> (r: usize)
    requires
        len == s@.len(),
        i <= end <= len,
    ensures
        r == find_from(s@, c, i as int, end as int),
        i <= r <= end,
{
    let mut j = i;
    while j < end && s.get_char(j) != c
        invariant
            len == s@.len(),
            i <= j <= end <= len,
            find_from(s@, c, i as int, end as int) == find_from(s@, c, j as int, end as int),
        decreases end - j,
    {
        j = j + 1;
    }
    j
}

/// Relies on `String`'s `FromIterator<&char>` (std): the characters are kept
/// in order.
#[verifier::external_body]
pub(crate) fn string_from_chars(v: &Vec<char>) -> (r: String)
    ensures
        r@ == v@,
{
    v.iter().collect()
}

} // verus!
