//! The live progress line that the transfer tool rewrites in place:
//! `<bytes> <percent>% <speed> <H:MM:SS>`, for example
//! `1,234,567  45%  1.23MB/s  0:00:12`.
use vstd::prelude::*;
use vstd::string::StrSliceExecFns;
use crate::format::{decimal, grouped_text, lemma_decimal, lemma_grouped_text, lemma_grouping_round_trip};
use crate::text::{
    all_digits, grouped_u64, grouped_value, is_digit, is_digit_char, is_separator, is_separator_char, is_space,
    parse_grouped_range, scan_token, skip_spaces, skip_ws, token_end,
};

verus! {

/// One recognised progress line.
#[derive(Debug, PartialEq)]
pub struct RsyncProgress {
    pub bytes_transferred: u64,
    pub percentage: u8,
    pub speed: String,
    pub estimated_time: String,
}

pub struct ProgressView {
    pub bytes_transferred: u64,
    pub percentage: u8,
    pub speed: Seq<char>,
    pub estimated_time: Seq<char>,
}

impl View for RsyncProgress {
    type V = ProgressView;

    open spec fn view(&self) -> ProgressView {
        ProgressView {
            bytes_transferred: self.bytes_transferred,
            percentage: self.percentage,
            speed: self.speed@,
            estimated_time: self.estimated_time@,
        }
    }
}

pub open spec fn is_word(c: char) -> bool {
    ('0' <= c && c <= '9') || ('a' <= c && c <= 'z') || ('A' <= c && c <= 'Z') || c == '_'
}

/// First position at or after `i` holding a `/` (or the end).
pub open spec fn slash_from(t: Seq<char>, i: int) -> int
    decreases t.len() - i,
{
    if 0 <= i < t.len() && t[i] != '/' {
        slash_from(t, i + 1)
    } else {
        i
    }
}

/// `<digits>%` with a value of at most one hundred.
pub open spec fn is_percent(t: Seq<char>) -> bool {
    &&& t.len() >= 2
    &&& t.last() == '%'
    &&& all_digits(t.drop_last())
    &&& grouped_value(t.drop_last()) <= 100
}

/// A rate such as `1.23MB/s`: a digit first, then word characters and
/// separators, one `/`, then at least one word character.
pub open spec fn is_speed(t: Seq<char>) -> bool {
    let k = slash_from(t, 0);
    &&& t.len() > 0
    &&& is_digit(t[0])
    &&& k < t.len() - 1
    &&& forall|i: int| 0 <= i < k ==> is_word(#[trigger] t[i]) || is_separator(t[i])
    &&& forall|i: int| k < i < t.len() ==> is_word(#[trigger] t[i])
}

/// `H:MM:SS` or `HH:MM:SS`.
pub open spec fn is_clock(t: Seq<char>) -> bool {
    let n = t.len();
    &&& (n == 7 || n == 8)
    &&& t[n - 3] == ':'
    &&& t[n - 6] == ':'
    &&& forall|i: int| 0 <= i < n && i != n - 3 && i != n - 6 ==> is_digit(#[trigger] t[i])
}

/// What a line says, if it is a progress line: exactly four
/// whitespace-separated fields, surrounding whitespace ignored.
pub open spec fn progress_of(s: Seq<char>) -> Option<ProgressView> {
    let a0 = skip_ws(s, 0);
    let a1 = token_end(s, a0);
    let b0 = skip_ws(s, a1);
    let b1 = token_end(s, b0);
    let c0 = skip_ws(s, b1);
    let c1 = token_end(s, c0);
    let d0 = skip_ws(s, c1);
    let d1 = token_end(s, d0);
    let bytes = s.subrange(a0, a1);
    let pct = s.subrange(b0, b1);
    let speed = s.subrange(c0, c1);
    let clock = s.subrange(d0, d1);
    if skip_ws(s, d1) == s.len() && grouped_u64(bytes) is Some && is_percent(pct) && is_speed(
        speed,
    ) && is_clock(clock) {
        Some(
            ProgressView {
                bytes_transferred: grouped_u64(bytes)->0,
                percentage: grouped_value(pct.drop_last()) as u8,
                speed,
                estimated_time: clock,
            },
        )
    } else {
        None
    }
}

pub open spec fn progress_view(r: Option<RsyncProgress>) -> Option<ProgressView> {
    match r {
        Some(p) => Some(p@),
        None => None,
    }
}

/// A progress line as the transfer prints it: the byte count grouped with
/// commas, the percentage, the rate and the time left, two spaces apart.
pub open spec fn progress_line(n: u64, p: u8, speed: Seq<char>, clock: Seq<char>) -> Seq<char> {
    grouped_text(n as nat) + seq![' ', ' '] + (decimal(p as nat) + seq!['%']) + seq![' ', ' '] + speed
        + seq![' ', ' '] + clock
}

proof fn lemma_token_end_at(s: Seq<char>, i: int, j: int)
    requires
        0 <= i <= j <= s.len(),
        forall|k: int| i <= k < j ==> !is_space(#[trigger] s[k]),
        j == s.len() || is_space(s[j]),
    ensures
        token_end(s, i) == j,
    decreases j - i,
{
    if i < j {
        lemma_token_end_at(s, i + 1, j);
    }
}

proof fn lemma_skip_ws_at(s: Seq<char>, i: int, j: int)
    requires
        0 <= i <= j <= s.len(),
        forall|k: int| i <= k < j ==> is_space(#[trigger] s[k]),
        j == s.len() || !is_space(s[j]),
    ensures
        skip_ws(s, i) == j,
    decreases j - i,
{
    if i < j {
        lemma_skip_ws_at(s, i + 1, j);
    }
}

proof fn lemma_slash_lands(t: Seq<char>, i: int)
    requires
        0 <= i,
        slash_from(t, i) < t.len(),
    ensures
        t[slash_from(t, i)] == '/',
    decreases t.len() - i,
{
    if i < t.len() && t[i] != '/' {
        lemma_slash_lands(t, i + 1);
    }
}

/// Reading a progress line gives back the values it was printed from: the
/// byte count, with its comma grouping removed, the percentage, the rate and
/// the time left.
pub proof fn lemma_progress_round_trip(n: u64, p: u8, speed: Seq<char>, clock: Seq<char>)
    requires
        p <= 100,
        is_speed(speed),
        is_clock(clock),
    ensures
        progress_of(progress_line(n, p, speed, clock)) == Some(
            ProgressView { bytes_transferred: n, percentage: p, speed, estimated_time: clock },
        ),
{
    let g = grouped_text(n as nat);
    let d = decimal(p as nat);
    let pd = d + seq!['%'];
    let sp = seq![' ', ' '];
    let l = progress_line(n, p, speed, clock);
    lemma_grouped_text(n as nat);
    lemma_decimal(p as nat);
    lemma_grouping_round_trip(n);
    lemma_slash_lands(speed, 0);
    let a1 = g.len() as int;
    let b0 = a1 + 2;
    let b1 = b0 + pd.len();
    let c0 = b1 + 2;
    let c1 = c0 + speed.len();
    let d0 = c1 + 2;
    let d1 = d0 + clock.len();
    assert(l.len() == d1);
    assert(l.subrange(0, a1) =~= g);
    assert(l.subrange(b0, b1) =~= pd);
    assert(l.subrange(c0, c1) =~= speed);
    assert(l.subrange(d0, d1) =~= clock);
    assert forall|k: int| 0 <= k < a1 implies !is_space(#[trigger] l[k]) by {
        assert(l[k] == g[k]);
    }
    assert forall|k: int| b0 <= k < b1 implies !is_space(#[trigger] l[k]) by {
        assert(l[k] == pd[k - b0]);
        if k - b0 < d.len() {
            assert(pd[k - b0] == d[k - b0]);
        }
    }
    assert forall|k: int| c0 <= k < c1 implies !is_space(#[trigger] l[k]) by {
        assert(l[k] == speed[k - c0]);
    }
    assert forall|k: int| d0 <= k < d1 implies !is_space(#[trigger] l[k]) by {
        assert(l[k] == clock[k - d0]);
    }
    assert forall|k: int| a1 <= k < b0 implies is_space(#[trigger] l[k]) by {}
    assert forall|k: int| b1 <= k < c0 implies is_space(#[trigger] l[k]) by {}
    assert forall|k: int| c1 <= k < d0 implies is_space(#[trigger] l[k]) by {}
    lemma_skip_ws_at(l, 0, 0);
    lemma_token_end_at(l, 0, a1);
    lemma_skip_ws_at(l, a1, b0);
    lemma_token_end_at(l, b0, b1);
    lemma_skip_ws_at(l, b1, c0);
    lemma_token_end_at(l, c0, c1);
    lemma_skip_ws_at(l, c1, d0);
    lemma_token_end_at(l, d0, d1);
    lemma_skip_ws_at(l, d1, d1);
    assert(pd.drop_last() =~= d);
    assert(is_percent(pd));
}

fn is_word_char(c: char) -> (r: bool)
    ensures
        r == is_word(c),
{
    ('0' <= c && c <= '9') || ('a' <= c && c <= 'z') || ('A' <= c && c <= 'Z') || c == '_'
}

fn check_percent(s: &str, len: usize, from: usize, to: usize) -> (r: Option<u8>)
    requires
        len == s@.len(),
        from <= to <= len,
    ensures
        r is Some <==> is_percent(s@.subrange(from as int, to as int)),
        r is Some ==> r->0 == grouped_value(s@.subrange(from as int, to as int).drop_last()),
{
    let ghost t = s@.subrange(from as int, to as int);
    if to - from < 2 || s.get_char(to - 1) != '%' {
        return None;
    }
    let mut j = from;
    while j < to - 1
        invariant
            len == s@.len(),
            from <= j <= to - 1,
            to <= len,
            t == s@.subrange(from as int, to as int),
            forall|k: int| from <= k < j ==> is_digit(#[trigger] s@[k]),
        decreases to - j,
    {
        if !is_digit_char(s.get_char(j)) {
            assert(t.drop_last()[j - from] == s@[j as int]);
            return None;
        }
        j = j + 1;
    }
    let ghost d = t.drop_last();
    assert(d =~= s@.subrange(from as int, to - 1));
    assert(all_digits(d)) by {
        assert forall|k: int| 0 <= k < d.len() implies is_digit(#[trigger] d[k]) by {
            assert(d[k] == s@[from + k]);
        }
    }
    let v = parse_grouped_range(s, len, from, to - 1);
    match v {
        Some(n) => {
            if n <= 100 {
                Some(n as u8)
            } else {
                None
            }
        },
        None => None,
    }
}

fn check_speed(s: &str, len: usize, from: usize, to: usize) -> (r: bool)
    requires
        len == s@.len(),
        from <= to <= len,
    ensures
        r == is_speed(s@.subrange(from as int, to as int)),
{
    let ghost t = s@.subrange(from as int, to as int);
    if from == to || !is_digit_char(s.get_char(from)) {
        return false;
    }
    let mut k = from;
    while k < to && s.get_char(k) != '/'
        invariant
            len == s@.len(),
            from <= k <= to <= len,
            t == s@.subrange(from as int, to as int),
            slash_from(t, 0) == slash_from(t, k - from),
        decreases to - k,
    {
        assert(t[k - from] == s@[k as int]);
        k = k + 1;
    }
    if k < to {
        assert(t[k - from] == s@[k as int]);
    }
    assert(slash_from(t, k - from) == k - from);
    if k >= to - 1 {
        return false;
    }
    let mut i = from;
    while i < k
        invariant
            len == s@.len(),
            from <= i <= k < to <= len,
            t == s@.subrange(from as int, to as int),
            slash_from(t, 0) == k - from,
            forall|q: int| 0 <= q < i - from ==> is_word(#[trigger] t[q]) || is_separator(t[q]),
        decreases k - i,
    {
        let c = s.get_char(i);
        assert(t[i - from] == c);
        if !is_word_char(c) && !is_separator_char(c) {
            return false;
        }
        i = i + 1;
    }
    let mut i = k + 1;
    while i < to
        invariant
            len == s@.len(),
            from <= k < i <= to <= len,
            t == s@.subrange(from as int, to as int),
            slash_from(t, 0) == k - from,
            forall|q: int| k - from < q < i - from ==> is_word(#[trigger] t[q]),
        decreases to - i,
    {
        let c = s.get_char(i);
        assert(t[i - from] == c);
        if !is_word_char(c) {
            return false;
        }
        i = i + 1;
    }
    true
}

fn check_clock(s: &str, len: usize, from: usize, to: usize) -> (r: bool)
    requires
        len == s@.len(),
        from <= to <= len,
    ensures
        r == is_clock(s@.subrange(from as int, to as int)),
{
    let ghost t = s@.subrange(from as int, to as int);
    let n = to - from;
    if n != 7 && n != 8 {
        return false;
    }
    let mut i: usize = 0;
    while i < n
        invariant
            len == s@.len(),
            from + n == to <= len,
            n == 7 || n == 8,
            i <= n,
            t == s@.subrange(from as int, to as int),
            forall|q: int|
                0 <= q < i ==> if q == n - 3 || q == n - 6 {
                    #[trigger] t[q] == ':'
                } else {
                    is_digit(t[q])
                },
        decreases n - i,
    {
        let c = s.get_char(from + i);
        assert(t[i as int] == c);
        if i == n - 3 || i == n - 6 {
            if c != ':' {
                return false;
            }
        } else if !is_digit_char(c) {
            return false;
        }
        i = i + 1;
    }
    assert(t[n - 3] == ':');
    assert(t[n - 6] == ':');
    true
}

/// Recognises a progress line and reads its fields; any other line gives
/// `None`.
pub fn parse_rsync_progress(line: &str) -> (r: Option<RsyncProgress>)
    ensures
        progress_view(r) == progress_of(line@),
{
    let s = line;
    let len = s.unicode_len();
    let a0 = skip_spaces(s, len, 0);
    let a1 = scan_token(s, len, a0);
    let b0 = skip_spaces(s, len, a1);
    let b1 = scan_token(s, len, b0);
    let c0 = skip_spaces(s, len, b1);
    let c1 = scan_token(s, len, c0);
    let d0 = skip_spaces(s, len, c1);
    let d1 = scan_token(s, len, d0);
    let e = skip_spaces(s, len, d1);
    if e != len {
        return None;
    }
    let bytes = match parse_grouped_range(s, len, a0, a1) {
        Some(b) => b,
        None => return None,
    };
    let percentage = match check_percent(s, len, b0, b1) {
        Some(p) => p,
        None => return None,
    };
    if !check_speed(s, len, c0, c1) || !check_clock(s, len, d0, d1) {
        return None;
    }
    let speed = s.substring_char(c0, c1).to_owned();
    let estimated_time = s.substring_char(d0, d1).to_owned();
    Some(RsyncProgress { bytes_transferred: bytes, percentage, speed, estimated_time })
}

} // verus!
